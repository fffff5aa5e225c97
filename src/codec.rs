//! Binary layout of the campaign record and of the withdraw request.
//!
//! A record is laid out as the 32 bytes of the administrator's key, then the
//! three display strings, each as a little-endian `u32` byte count followed by
//! its UTF-8 bytes, then the donated total as a little-endian `u64`.
use vstd::bytes::*;
use vstd::prelude::*;
use vstd::slice::*;
use vstd::utf8::*;

verus! {

broadcast use vstd::utf8::encode_utf8_valid_utf8;

/// A 32-byte account identity.
#[derive(Clone, Copy, Debug, PartialEq, Eq)]
pub struct Pubkey {
    pub bytes: [u8; 32],
}

impl View for Pubkey {
    type V = Seq<u8>;

    open spec fn view(&self) -> Seq<u8> {
        self.bytes@
    }
}

impl Pubkey {
    pub fn new(bytes: [u8; 32]) -> (r: Pubkey)
        ensures
            r@ == bytes@,
    {
        Pubkey { bytes }
    }

    /// Compares two identities byte by byte.
    pub fn same_as(&self, other: &Pubkey) -> (r: bool)
        ensures
            r == (self@ == other@),
    {
        let mut i: usize = 0;
        while i < 32
            invariant
                0 <= i <= 32,
                self@.len() == 32,
                other@.len() == 32,
                forall|j: int| 0 <= j < i ==> self@[j] == other@[j],
            decreases 32 - i,
        {
            if self.bytes[i] != other.bytes[i] {
                return false;
            }
            i += 1;
        }
        assert(self@ =~= other@);
        true
    }
}

/// The mathematical content of a campaign record; display strings are given
/// by their UTF-8 bytes.
pub struct RecordModel {
    pub admin: Seq<u8>,
    pub name: Seq<u8>,
    pub description: Seq<u8>,
    pub image_link: Seq<u8>,
    pub amount_donated: u64,
}

/// A campaign as stored in its account.
#[derive(Clone, Debug, PartialEq, Eq)]
pub struct CampaignRecord {
    pub admin: Pubkey,
    pub name: String,
    pub description: String,
    pub image_link: String,
    pub amount_donated: u64,
}

impl View for CampaignRecord {
    type V = RecordModel;

    open spec fn view(&self) -> RecordModel {
        RecordModel {
            admin: self.admin@,
            name: encode_utf8(self.name@),
            description: encode_utf8(self.description@),
            image_link: encode_utf8(self.image_link@),
            amount_donated: self.amount_donated,
        }
    }
}

/// The amount that an administrator asks to withdraw.
#[derive(Clone, Copy, Debug, PartialEq, Eq)]
pub struct WithdrawRequest {
    pub amount: u64,
}

/// A string field: its byte count fits the `u32` prefix and it is UTF-8.
pub open spec fn text_ok(t: Seq<u8>) -> bool {
    t.len() <= u32::MAX && valid_utf8(t)
}

/// The bytes of one string field: count, then contents.
pub open spec fn text_bytes(t: Seq<u8>) -> Seq<u8> {
    spec_u32_to_le_bytes(t.len() as u32) + t
}

/// A record whose fields can be laid out.
pub open spec fn record_ok(m: RecordModel) -> bool {
    &&& m.admin.len() == 32
    &&& text_ok(m.name)
    &&& text_ok(m.description)
    &&& text_ok(m.image_link)
}

/// The layout of a record.
pub open spec fn record_bytes(m: RecordModel) -> Seq<u8> {
    m.admin + text_bytes(m.name) + text_bytes(m.description) + text_bytes(m.image_link)
        + spec_u64_to_le_bytes(m.amount_donated)
}

/// `b` is exactly the layout of the well-formed record `m`.
pub open spec fn encodes_record(b: Seq<u8>, m: RecordModel) -> bool {
    record_ok(m) && record_bytes(m) == b
}

/// What `b` decodes to: the record whose layout it is, if there is one.
pub open spec fn decode_record_spec(b: Seq<u8>) -> Option<RecordModel> {
    if exists|m: RecordModel| encodes_record(b, m) {
        Some(choose|m: RecordModel| encodes_record(b, m))
    } else {
        None
    }
}

/// What `b` decodes to as a withdraw request: eight bytes, little-endian.
pub open spec fn decode_request_spec(b: Seq<u8>) -> Option<u64> {
    if b.len() == 8 {
        Some(spec_u64_from_le_bytes(b))
    } else {
        None
    }
}

/// A string field `t` starts at `pos` in `b`.
pub open spec fn text_at(b: Seq<u8>, pos: int, t: Seq<u8>) -> bool {
    &&& pos + 4 + t.len() <= b.len()
    &&& b.subrange(pos, pos + 4 + t.len()) == text_bytes(t)
}

/// Relies on `String::from_utf8`: it accepts exactly the valid UTF-8 byte
/// sequences, and the string it returns has those bytes as its encoding.
#[verifier::external_body]
fn string_from_utf8(bytes: Vec<u8>) -> (r: Option<String>)
    ensures
        r.is_some() <==> valid_utf8(bytes@),
        r.is_some() ==> encode_utf8(r.unwrap()@) == bytes@,
{
    String::from_utf8(bytes).ok()
}

proof fn lemma_text_at_unique(b: Seq<u8>, pos: int, t: Seq<u8>)
    requires
        0 <= pos,
        t.len() <= u32::MAX,
        text_at(b, pos, t),
    ensures
        spec_u32_from_le_bytes(b.subrange(pos, pos + 4)) == t.len(),
        b.subrange(pos + 4, pos + 4 + t.len()) == t,
{
    lemma_auto_spec_u32_to_from_le_bytes();
    let whole = b.subrange(pos, pos + 4 + t.len());
    assert(b.subrange(pos, pos + 4) =~= whole.subrange(0, 4));
    assert(whole.subrange(0, 4) =~= spec_u32_to_le_bytes(t.len() as u32));
    assert(b.subrange(pos + 4, pos + 4 + t.len()) =~= whole.subrange(4, 4 + t.len() as int));
    assert(whole.subrange(4, 4 + t.len() as int) =~= t);
}

/// Reads the string field that starts at `pos`, if one does.
fn read_text(b: &[u8], pos: usize) -> (r: Option<(String, usize)>)
    requires
        pos <= b@.len(),
    ensures
        match r {
            Some((s, end)) => {
                &&& end == pos + 4 + encode_utf8(s@).len()
                &&& text_ok(encode_utf8(s@))
                &&& text_at(b@, pos as int, encode_utf8(s@))
                &&& forall|t: Seq<u8>|
                    text_ok(t) && #[trigger] text_at(b@, pos as int, t) ==> t == encode_utf8(s@)
            },
            None => forall|t: Seq<u8>| text_ok(t) ==> !#[trigger] text_at(b@, pos as int, t),
        },
{
    if b.len() - pos < 4 {
        return None;
    }
    let count = u32_from_le_bytes(slice_subrange(b, pos, pos + 4));
    let n = count as usize;
    if b.len() - pos - 4 < n {
        proof {
            assert forall|t: Seq<u8>| text_ok(t) implies !#[trigger] text_at(b@, pos as int, t) by {
                if text_at(b@, pos as int, t) {
                    lemma_text_at_unique(b@, pos as int, t);
                }
            }
        }
        return None;
    }
    let bytes = slice_to_vec(slice_subrange(b, pos + 4, pos + 4 + n));
    proof {
        assert(bytes@ =~= b@.subrange(pos + 4, pos + 4 + n));
        assert forall|t: Seq<u8>| text_ok(t) && #[trigger] text_at(b@, pos as int, t) implies t
            == bytes@ by {
            lemma_text_at_unique(b@, pos as int, t);
        }
    }
    let ghost raw = bytes@;
    match string_from_utf8(bytes) {
        Some(s) => {
            proof {
                lemma_auto_spec_u32_to_from_le_bytes();
                let cnt = b@.subrange(pos as int, pos + 4);
                assert(cnt.len() == 4);
                assert(spec_u32_to_le_bytes(spec_u32_from_le_bytes(cnt)) == cnt);
                assert(b@.subrange(pos as int, pos + 4 + n) =~= cnt + raw);
            }
            Some((s, pos + 4 + n))
        },
        None => None,
    }
}


proof fn lemma_record_parts(b: Seq<u8>, m: RecordModel)
    requires
        encodes_record(b, m),
    ensures
        b.len() == 32 + 4 + m.name.len() + 4 + m.description.len() + 4 + m.image_link.len() + 8,
        b.subrange(0, 32) == m.admin,
        text_at(b, 32, m.name),
        text_at(b, 36 + m.name.len() as int, m.description),
        text_at(b, 40 + m.name.len() + m.description.len() as int, m.image_link),
        b.subrange(b.len() - 8, b.len() as int) == spec_u64_to_le_bytes(m.amount_donated),
{
    lemma_auto_spec_u64_to_from_le_bytes();
    lemma_auto_spec_u32_to_from_le_bytes();
    let t1 = text_bytes(m.name);
    let t2 = text_bytes(m.description);
    let t3 = text_bytes(m.image_link);
    let c = spec_u64_to_le_bytes(m.amount_donated);
    let end_name = 32 + t1.len();
    let end_description = end_name + t2.len();
    let end_link = end_description + t3.len();
    assert(b =~= m.admin + t1 + t2 + t3 + c);
    assert(b.subrange(0, 32) =~= m.admin);
    assert(b.subrange(32, end_name as int) =~= t1);
    assert(b.subrange(end_name as int, end_description as int) =~= t2);
    assert(b.subrange(end_description as int, end_link as int) =~= t3);
    assert(b.subrange(end_link as int, b.len() as int) =~= c);
}

/// Decodes a whole byte sequence as a campaign record; `None` where the bytes
/// are not the layout of any record, trailing bytes included.
pub fn decode_record(b: &[u8]) -> (r: Option<CampaignRecord>)
    ensures
        match r {
            Some(rec) => decode_record_spec(b@) == Some(rec@),
            None => decode_record_spec(b@).is_none(),
        },
{
    proof {
        lemma_auto_spec_u64_to_from_le_bytes();
    }
    if b.len() < 32 {
        proof {
            if exists|m: RecordModel| encodes_record(b@, m) {
                let m = choose|m: RecordModel| encodes_record(b@, m);
                lemma_record_parts(b@, m);
            }
        }
        return None;
    }
    let mut key: [u8; 32] = [0u8; 32];
    let mut i: usize = 0;
    while i < 32
        invariant
            0 <= i <= 32,
            b@.len() >= 32,
            forall|j: int| 0 <= j < i ==> key@[j] == b@[j],
        decreases 32 - i,
    {
        key[i] = b[i];
        i += 1;
    }
    let admin = Pubkey { bytes: key };
    assert(admin@ =~= b@.subrange(0, 32));
    let r1 = read_text(b, 32);
    if r1.is_none() {
        proof {
            if exists|m: RecordModel| encodes_record(b@, m) {
                let m = choose|m: RecordModel| encodes_record(b@, m);
                lemma_record_parts(b@, m);
            }
        }
        return None;
    }
    let (name, end_name) = r1.unwrap();
    let r2 = read_text(b, end_name);
    if r2.is_none() {
        proof {
            if exists|m: RecordModel| encodes_record(b@, m) {
                let m = choose|m: RecordModel| encodes_record(b@, m);
                lemma_record_parts(b@, m);
            }
        }
        return None;
    }
    let (description, end_description) = r2.unwrap();
    let r3 = read_text(b, end_description);
    if r3.is_none() {
        proof {
            if exists|m: RecordModel| encodes_record(b@, m) {
                let m = choose|m: RecordModel| encodes_record(b@, m);
                lemma_record_parts(b@, m);
            }
        }
        return None;
    }
    let (image_link, end_link) = r3.unwrap();
    if b.len() - end_link != 8 {
        proof {
            if exists|m: RecordModel| encodes_record(b@, m) {
                let m = choose|m: RecordModel| encodes_record(b@, m);
                lemma_record_parts(b@, m);
            }
        }
        return None;
    }
    let amount_donated = u64_from_le_bytes(slice_subrange(b, end_link, end_link + 8));
    let rec = CampaignRecord { admin, name, description, image_link, amount_donated };
    proof {
        let m = rec@;
        let tail = b@.subrange(end_link as int, end_link + 8);
        assert(spec_u64_to_le_bytes(spec_u64_from_le_bytes(tail)) == tail);
        assert(b@ =~= b@.subrange(0, 32) + b@.subrange(32, end_name as int) + b@.subrange(
            end_name as int,
            end_description as int,
        ) + b@.subrange(end_description as int, end_link as int) + tail);
        assert(encodes_record(b@, m));
        assert forall|m2: RecordModel| encodes_record(b@, m2) implies m2 == m by {
            lemma_record_parts(b@, m2);
        }
    }
    Some(rec)
}

/// Appends `src` to `out`.
fn push_all(out: &mut Vec<u8>, src: &[u8])
    ensures
        final(out)@ == old(out)@ + src@,
{
    let mut i: usize = 0;
    while i < src.len()
        invariant
            0 <= i <= src@.len(),
            out@ == old(out)@ + src@.subrange(0, i as int),
        decreases src@.len() - i,
    {
        out.push(src[i]);
        i += 1;
        assert(src@.subrange(0, i as int) =~= src@.subrange(0, i - 1) + seq![src@[i - 1]]);
    }
    assert(src@.subrange(0, i as int) =~= src@);
}

/// Appends one string field: its byte count, then its bytes.
fn push_text(out: &mut Vec<u8>, s: &String)
    requires
        encode_utf8(s@).len() <= u32::MAX,
    ensures
        final(out)@ == old(out)@ + text_bytes(encode_utf8(s@)),
{
    let bytes = s.as_str().as_bytes();
    let count = u32_to_le_bytes(bytes.len() as u32);
    push_all(out, count.as_slice());
    push_all(out, bytes);
    assert(final(out)@ =~= old(out)@ + text_bytes(encode_utf8(s@)));
}

/// Lays out a record; the string fields must each fit a `u32` byte count.
pub fn encode_record(rec: &CampaignRecord) -> (out: Vec<u8>)
    requires
        record_ok(rec@),
    ensures
        out@ == record_bytes(rec@),
{
    let mut out: Vec<u8> = Vec::new();
    push_all(&mut out, rec.admin.bytes.as_slice());
    push_text(&mut out, &rec.name);
    push_text(&mut out, &rec.description);
    push_text(&mut out, &rec.image_link);
    let tail = u64_to_le_bytes(rec.amount_donated);
    push_all(&mut out, tail.as_slice());
    assert(out@ =~= record_bytes(rec@));
    out
}

/// Decodes a withdraw request: exactly eight bytes, a little-endian amount.
pub fn decode_request(b: &[u8]) -> (r: Option<WithdrawRequest>)
    ensures
        match r {
            Some(req) => decode_request_spec(b@) == Some(req.amount),
            None => decode_request_spec(b@).is_none(),
        },
{
    if b.len() != 8 {
        return None;
    }
    Some(WithdrawRequest { amount: u64_from_le_bytes(b) })
}

/// Lays out a withdraw request.
pub fn encode_request(req: &WithdrawRequest) -> (out: Vec<u8>)
    ensures
        out@ == spec_u64_to_le_bytes(req.amount),
{
    u64_to_le_bytes(req.amount)
}


/// Decoding the layout of a well-formed record gives that record back.
pub proof fn lemma_decode_encode(m: RecordModel)
    requires
        record_ok(m),
    ensures
        decode_record_spec(record_bytes(m)) == Some(m),
{
    let b = record_bytes(m);
    lemma_auto_spec_u64_to_from_le_bytes();
    assert(encodes_record(b, m));
    lemma_record_parts(b, m);
    assert forall|m2: RecordModel| encodes_record(b, m2) implies m2 == m by {
        lemma_record_parts(b, m2);
        lemma_text_at_unique(b, 32, m.name);
        lemma_text_at_unique(b, 32, m2.name);
        assert(m2.name =~= m.name);
        lemma_text_at_unique(b, 36 + m.name.len() as int, m.description);
        lemma_text_at_unique(b, 36 + m.name.len() as int, m2.description);
        assert(m2.description =~= m.description);
        let end_description = 40 + m.name.len() + m.description.len() as int;
        lemma_text_at_unique(b, end_description, m.image_link);
        lemma_text_at_unique(b, end_description, m2.image_link);
        assert(m2.image_link =~= m.image_link);
        assert(m2.admin =~= m.admin);
    }
}

/// Encoding what a byte sequence decodes to gives those bytes back.
pub proof fn lemma_encode_decode(b: Seq<u8>)
    requires
        decode_record_spec(b).is_some(),
    ensures
        record_bytes(decode_record_spec(b).unwrap()) == b,
        record_ok(decode_record_spec(b).unwrap()),
{
}

/// Changing only the donated total keeps the layout's length.
pub proof fn lemma_record_len_keeps(m: RecordModel, amount: u64)
    ensures
        record_bytes(RecordModel { amount_donated: amount, ..m }).len() == record_bytes(m).len(),
{
    lemma_auto_spec_u64_to_from_le_bytes();
}

} // verus!
