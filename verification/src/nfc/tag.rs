//! Type 2 tag (NTAG213/215/216) memory reading and TLV parsing.
use vstd::prelude::*;

use super::apdu::{
    is_success, payload, spec_is_success, spec_payload, type2_read_binary,
};

verus! {

/// Pages of a Type 2 tag that are read at most (NTAG216 has 231 pages).
pub const MAX_TYPE2_PAGES: u8 = 231;

/// Bytes asked for in one read command (four pages).
pub const READ_SIZE: u8 = 16;

/// First page of the user data area, where the capability container ends.
pub const FIRST_DATA_PAGE: u8 = 4;

/// TLV tag of an NDEF Message.
pub const NDEF_TLV: u8 = 0x03;

/// TLV tag of the terminator.
pub const TERMINATOR_TLV: u8 = 0xFE;

/// `k` is the position of the first `b` in `s`.
pub open spec fn is_first_index(s: Seq<u8>, b: u8, k: int) -> bool {
    &&& 0 <= k < s.len()
    &&& s[k] == b
    &&& forall|j: int| 0 <= j < k ==> s[j] != b
}

/// Position of the first `b` in `s`, if `b` occurs.
pub open spec fn first_index(s: Seq<u8>, b: u8) -> Option<int> {
    if exists|k: int| is_first_index(s, b, k) {
        Some(choose|k: int| is_first_index(s, b, k))
    } else {
        None
    }
}

proof fn lemma_first_index_unique(s: Seq<u8>, b: u8, k: int)
    requires
        is_first_index(s, b, k),
    ensures
        first_index(s, b) == Some(k),
{
    let k2 = choose|k2: int| is_first_index(s, b, k2);
    assert(is_first_index(s, b, k2));
    if k2 < k {
        assert(s[k2] != b);
    } else if k < k2 {
        assert(s[k] != b);
    }
}

/// Finds the first occurrence of `b` in `s`.
pub fn find_byte(s: &[u8], b: u8) -> (r: Option<usize>)
    ensures
        match r {
            Some(k) => first_index(s@, b) == Some(k as int),
            None => first_index(s@, b) is None && !s@.contains(b),
        },
{
    let mut i: usize = 0;
    while i < s.len()
        invariant
            i <= s@.len(),
            forall|j: int| 0 <= j < i ==> s@[j] != b,
        decreases s@.len() - i,
    {
        if s[i] == b {
            proof {
                lemma_first_index_unique(s@, b, i as int);
            }
            return Some(i);
        }
        i = i + 1;
    }
    assert(!(exists|k: int| is_first_index(s@, b, k)));
    assert(!s@.contains(b));
    None
}

/// Length and header size of the TLV that starts `data` (at least two bytes):
/// a length byte of `FF` followed by two more bytes is the three-byte form.
pub open spec fn tlv_length_field(data: Seq<u8>) -> (int, int) {
    if data[1] == 0xFFu8 && data.len() >= 4 {
        (data[2] as int * 256 + data[3] as int, 4)
    } else {
        (data[1] as int, 2)
    }
}

/// What `parse_tlv` gives for `data`: the error it reports, or the total size and
/// the payload.
pub open spec fn spec_parse_tlv(data: Seq<u8>) -> Result<(int, Seq<u8>), TlvFault> {
    if data.len() < 2 {
        Err(TlvFault::TooShort)
    } else if data[0] != NDEF_TLV {
        Err(TlvFault::NotNdef)
    } else {
        let (len, header) = tlv_length_field(data);
        if data.len() < header + len {
            Err(TlvFault::LengthExceedsBuffer)
        } else {
            Ok((header + len, data.subrange(header, header + len)))
        }
    }
}

/// The three ways a TLV fails to parse.
pub enum TlvFault {
    TooShort,
    NotNdef,
    LengthExceedsBuffer,
}

/// The message that `parse_tlv` reports for each fault.
pub open spec fn tlv_fault_message(f: TlvFault) -> &'static str {
    match f {
        TlvFault::TooShort => "TLV too short",
        TlvFault::NotNdef => "not NDEF TLV",
        TlvFault::LengthExceedsBuffer => "TLV length exceeds buffer",
    }
}

/// Parses the NDEF Message TLV that starts `data`. Returns the TLV's total size
/// and its payload.
pub fn parse_tlv(data: &[u8]) -> (r: Result<(usize, &[u8]), &'static str>)
    ensures
        match spec_parse_tlv(data@) {
            Ok((total, p)) => r matches Ok((t, q)) && t == total && q@ == p,
            Err(f) => r matches Err(e) && e == tlv_fault_message(f),
        },
{
    if data.len() < 2 {
        return Err("TLV too short");
    }
    if data[0] != NDEF_TLV {
        return Err("not NDEF TLV");
    }
    let len_byte = data[1];
    let (len, header_len): (usize, usize) = if len_byte == 0xFF && data.len() >= 4 {
        (data[2] as usize * 256 + data[3] as usize, 4)
    } else {
        (len_byte as usize, 2)
    };
    if data.len() < header_len + len {
        return Err("TLV length exceeds buffer");
    }
    Ok((header_len + len, &data[header_len..header_len + len]))
}

/// A short NDEF TLV (payload under 255 bytes) written as `03 len payload` is read
/// back as that payload, whatever follows it.
pub proof fn lemma_short_tlv_roundtrip(p: Seq<u8>, rest: Seq<u8>)
    requires
        p.len() < 255,
    ensures
        spec_parse_tlv(seq![NDEF_TLV, p.len() as u8] + p + rest) == Ok::<(int, Seq<u8>), TlvFault>(
            (2 + p.len() as int, p),
        ),
{
    let data = seq![NDEF_TLV, p.len() as u8] + p + rest;
    assert(data[1] == p.len() as u8);
    assert(data.subrange(2, 2 + p.len() as int) =~= p);
}

/// A long NDEF TLV written as `03 FF hi lo payload` is read back as that
/// payload, whatever follows it.
pub proof fn lemma_long_tlv_roundtrip(p: Seq<u8>, rest: Seq<u8>)
    requires
        p.len() <= 0xFFFF,
    ensures
        spec_parse_tlv(
            seq![NDEF_TLV, 0xFFu8, (p.len() / 256) as u8, (p.len() % 256) as u8] + p + rest,
        ) == Ok::<(int, Seq<u8>), TlvFault>((4 + p.len() as int, p)),
{
    let data = seq![NDEF_TLV, 0xFFu8, (p.len() / 256) as u8, (p.len() % 256) as u8] + p + rest;
    assert(data[2] as int * 256 + data[3] as int == p.len());
    assert(data.subrange(4, 4 + p.len() as int) =~= p);
}

/// Why no content came out of a Type 2 tag's memory.
#[derive(Debug, Clone, Copy, PartialEq, Eq)]
pub enum TagError {
    /// An NDEF TLV tag was found, but the TLV did not parse.
    Tlv(&'static str),
    /// Nothing was read.
    NoData,
}

/// Whether a terminator byte `FE` comes in `data` before any NDEF TLV tag `03`,
/// where it ends the tag's TLVs before an NDEF message starts.
pub open spec fn terminator_first(data: Seq<u8>) -> bool {
    match first_index(data, TERMINATOR_TLV) {
        Some(f) => match first_index(data, NDEF_TLV) {
            Some(n) => f < n,
            None => true,
        },
        None => false,
    }
}

/// What the tag content is, given the memory read from it: the payload of the
/// NDEF TLV that starts at the first `03` byte, taken by the TLV's length (a `FE`
/// inside it is data); when a terminator `FE` comes before any `03`, the bytes
/// before it; with neither, all bytes read.
pub open spec fn spec_extract_ndef(data: Seq<u8>) -> Result<Seq<u8>, TagError> {
    if terminator_first(data) {
        let cut = data.subrange(0, first_index(data, TERMINATOR_TLV).unwrap());
        if cut.len() > 0 {
            Ok(cut)
        } else {
            Err(TagError::NoData)
        }
    } else {
        match first_index(data, NDEF_TLV) {
            Some(pos) => match spec_parse_tlv(data.subrange(pos, data.len() as int)) {
                Ok((_, p)) => Ok(p),
                Err(f) => Err(TagError::Tlv(tlv_fault_message(f))),
            },
            None => if data.len() > 0 {
                Ok(data)
            } else {
                Err(TagError::NoData)
            },
        }
    }
}

/// Whether the memory read so far settles the tag's content, so that reading
/// more pages cannot change it: a terminator came before any NDEF TLV, or the
/// whole NDEF TLV (by its length) has been read.
pub open spec fn content_complete(data: Seq<u8>) -> bool {
    terminator_first(data) || match first_index(data, NDEF_TLV) {
        Some(pos) => spec_parse_tlv(data.subrange(pos, data.len() as int)) is Ok,
        None => false,
    }
}

/// Whether a terminator comes before any NDEF TLV tag in `data`, and where the
/// first terminator is.
fn find_terminator_first(data: &[u8]) -> (r: (bool, Option<usize>, Option<usize>))
    ensures
        r.0 == terminator_first(data@),
        match r.1 {
            Some(k) => first_index(data@, TERMINATOR_TLV) == Some(k as int),
            None => first_index(data@, TERMINATOR_TLV) is None,
        },
        match r.2 {
            Some(k) => first_index(data@, NDEF_TLV) == Some(k as int),
            None => first_index(data@, NDEF_TLV) is None,
        },
{
    let fe = find_byte(data, TERMINATOR_TLV);
    let ndef = find_byte(data, NDEF_TLV);
    let first = match fe {
        Some(f) => match ndef {
            Some(n) => f < n,
            None => true,
        },
        None => false,
    };
    (first, fe, ndef)
}

/// The content of a Type 2 tag's memory (see `spec_extract_ndef`).
pub fn extract_ndef(data: &[u8]) -> (r: Result<Vec<u8>, TagError>)
    ensures
        match spec_extract_ndef(data@) {
            Ok(p) => r matches Ok(v) && v@ == p,
            Err(e) => r == Err::<Vec<u8>, TagError>(e),
        },
{
    let (term_first, fe, ndef) = find_terminator_first(data);
    if term_first {
        let f = match fe {
            Some(f) => f,
            None => 0,
        };
        if f > 0 {
            Ok(vstd::slice::slice_to_vec(&data[0..f]))
        } else {
            Err(TagError::NoData)
        }
    } else {
        match ndef {
            Some(pos) => {
                let tail = &data[pos..data.len()];
                match parse_tlv(tail) {
                    Ok((_, payload)) => Ok(vstd::slice::slice_to_vec(payload)),
                    Err(e) => Err(TagError::Tlv(e)),
                }
            },
            None => {
                if data.len() > 0 {
                    Ok(vstd::slice::slice_to_vec(data))
                } else {
                    Err(TagError::NoData)
                }
            },
        }
    }
}

/// Whether the memory read so far settles the tag's content (see `content_complete`).
pub fn is_content_complete(data: &[u8]) -> (done: bool)
    ensures
        done == content_complete(data@),
{
    let (term_first, _, ndef) = find_terminator_first(data);
    if term_first {
        true
    } else {
        match ndef {
            Some(pos) => parse_tlv(&data[pos..data.len()]).is_ok(),
            None => false,
        }
    }
}

/// State of reading a Type 2 tag's memory four pages at a time.
pub struct Type2ReadView {
    pub data: Seq<u8>,
    pub page: u8,
    pub finished: bool,
}

/// What one response does to the read: a failed transmission or a non-success
/// status ends it; otherwise the payload is appended, and the read ends once the
/// content is complete (see `content_complete`), or else moves four pages on.
pub open spec fn spec_read_step(s: Type2ReadView, response: Option<Seq<u8>>) -> Type2ReadView {
    match response {
        None => Type2ReadView { finished: true, ..s },
        Some(r) => if !spec_is_success(r) {
            Type2ReadView { finished: true, ..s }
        } else {
            let data = s.data + spec_payload(r);
            if content_complete(data) {
                Type2ReadView { data, finished: true, ..s }
            } else {
                Type2ReadView { data, page: (s.page + 4) as u8, ..s }
            }
        },
    }
}

/// Reading a Type 2 tag's memory, one command and one response at a time.
pub struct Type2Read {
    data: Vec<u8>,
    page: u8,
    finished: bool,
}

impl View for Type2Read {
    type V = Type2ReadView;

    closed spec fn view(&self) -> Type2ReadView {
        Type2ReadView { data: self.data@, page: self.page, finished: self.finished }
    }
}

/// Whether a read in state `s` still has a command to send.
pub open spec fn read_wants_more(s: Type2ReadView) -> bool {
    !s.finished && s.page < MAX_TYPE2_PAGES
}

/// Commands that a read in state `s` can still send at most.
pub open spec fn read_budget(s: Type2ReadView) -> nat {
    if read_wants_more(s) {
        ((MAX_TYPE2_PAGES - s.page + 3) / 4) as nat
    } else {
        0
    }
}

impl Type2Read {
    /// A read that starts at the first data page with nothing collected.
    pub fn new() -> (r: Self)
        ensures
            r@ == (Type2ReadView { data: Seq::empty(), page: FIRST_DATA_PAGE, finished: false }),
            read_budget(r@) == 57,
    {
        Type2Read { data: Vec::new(), page: FIRST_DATA_PAGE, finished: false }
    }

    /// The next read command, or `None` once the read is over.
    pub fn next_command(&self) -> (cmd: Option<Vec<u8>>)
        ensures
            cmd is Some <==> read_wants_more(self@),
            cmd matches Some(c) ==> c@ == seq![0xFFu8, 0xB0u8, 0x00u8, self@.page, READ_SIZE],
    {
        if self.finished || self.page >= MAX_TYPE2_PAGES {
            None
        } else {
            Some(type2_read_binary(self.page, READ_SIZE))
        }
    }

    /// Takes the response to the last command (`None` when transmission failed).
    pub fn on_response(&mut self, response: Option<&[u8]>)
        requires
            read_wants_more(old(self)@),
        ensures
            final(self)@ == spec_read_step(
                old(self)@,
                match response {
                    Some(r) => Some(r@),
                    None => None,
                },
            ),
    {
        match response {
            None => {
                self.finished = true;
            },
            Some(rsp) => {
                if !is_success(rsp) {
                    self.finished = true;
                } else {
                    self.data.extend_from_slice(payload(rsp));
                    if is_content_complete(self.data.as_slice()) {
                        self.finished = true;
                    } else {
                        self.page = self.page + 4;
                    }
                }
            },
        }
        proof {
            let ghost resp = match response {
                Some(r) => Some(r@),
                None => None,
            };
            assert(self@.data =~= spec_read_step(old(self)@, resp).data);
        }
    }

    /// The tag's content, from the memory read so far.
    pub fn finish(&self) -> (r: Result<Vec<u8>, TagError>)
        ensures
            match spec_extract_ndef(self@.data) {
                Ok(p) => r matches Ok(v) && v@ == p,
                Err(e) => r == Err::<Vec<u8>, TagError>(e),
            },
    {
        extract_ndef(self.data.as_slice())
    }
}

/// Every response uses up at least one command of the read's budget, so a read
/// ends after at most as many commands as its budget (57 for a new read).
pub proof fn lemma_read_terminates(s: Type2ReadView, response: Option<Seq<u8>>)
    requires
        read_wants_more(s),
    ensures
        read_budget(spec_read_step(s, response)) < read_budget(s),
{
}

proof fn lemma_first_index_some(s: Seq<u8>, b: u8)
    requires
        first_index(s, b) is Some,
    ensures
        is_first_index(s, b, first_index(s, b).unwrap()),
{
}

proof fn lemma_exists_first_index(s: Seq<u8>, b: u8, k: int)
    requires
        0 <= k < s.len(),
        s[k] == b,
    ensures
        exists|m: int| is_first_index(s, b, m),
    decreases k,
{
    if exists|j: int| 0 <= j < k && s[j] == b {
        let j = choose|j: int| 0 <= j < k && s[j] == b;
        lemma_exists_first_index(s, b, j);
    } else {
        assert(is_first_index(s, b, k));
    }
}

proof fn lemma_first_index_none(s: Seq<u8>, b: u8)
    requires
        first_index(s, b) is None,
    ensures
        forall|k: int| 0 <= k < s.len() ==> s[k] != b,
{
    if exists|k: int| 0 <= k < s.len() && s[k] == b {
        let k = choose|k: int| 0 <= k < s.len() && s[k] == b;
        lemma_exists_first_index(s, b, k);
    }
}

/// Where the first `b` of `d + more` is: that of `d` when `d` holds one,
/// otherwise none or one inside `more`.
proof fn lemma_first_index_append(d: Seq<u8>, more: Seq<u8>, b: u8)
    ensures
        first_index(d, b) is Some ==> first_index(d + more, b) == first_index(d, b),
        first_index(d, b) is None ==> match first_index(d + more, b) {
            Some(k) => k >= d.len(),
            None => true,
        },
{
    let e = d + more;
    if first_index(d, b) is Some {
        lemma_first_index_some(d, b);
        let k = first_index(d, b).unwrap();
        assert(e[k] == d[k]);
        assert forall|j: int| 0 <= j < k implies e[j] != b by {
            assert(e[j] == d[j]);
        }
        lemma_first_index_unique(e, b, k);
    } else {
        lemma_first_index_none(d, b);
        if first_index(e, b) is Some {
            lemma_first_index_some(e, b);
            let k = first_index(e, b).unwrap();
            if k < d.len() {
                assert(e[k] == d[k]);
            }
        }
    }
}

/// A TLV that parses still parses the same way with more bytes after it.
proof fn lemma_parse_tlv_append(s: Seq<u8>, more: Seq<u8>)
    requires
        spec_parse_tlv(s) is Ok,
    ensures
        spec_parse_tlv(s + more) == spec_parse_tlv(s),
{
    let e = s + more;
    assert(e[0] == s[0] && e[1] == s[1]);
    if s.len() >= 4 {
        assert(e[2] == s[2] && e[3] == s[3]);
    }
    let (len, header) = tlv_length_field(s);
    assert(e.subrange(header, header + len) =~= s.subrange(header, header + len));
}

/// Reading stops once the content is complete, and rightly so: whatever more
/// memory follows, the content and its completeness stay as they are.
pub proof fn lemma_complete_content_is_final(d: Seq<u8>, more: Seq<u8>)
    requires
        content_complete(d),
    ensures
        content_complete(d + more),
        spec_extract_ndef(d + more) == spec_extract_ndef(d),
{
    let e = d + more;
    lemma_first_index_append(d, more, TERMINATOR_TLV);
    lemma_first_index_append(d, more, NDEF_TLV);
    if terminator_first(d) {
        let f = first_index(d, TERMINATOR_TLV).unwrap();
        lemma_first_index_some(d, TERMINATOR_TLV);
        assert(terminator_first(e));
        assert(e.subrange(0, f) =~= d.subrange(0, f));
    } else {
        let pos = first_index(d, NDEF_TLV).unwrap();
        lemma_first_index_some(d, NDEF_TLV);
        if first_index(d, TERMINATOR_TLV) is None {
            if first_index(e, TERMINATOR_TLV) is Some {
                assert(first_index(e, TERMINATOR_TLV).unwrap() >= d.len());
            }
        }
        assert(!terminator_first(e));
        let t = d.subrange(pos, d.len() as int);
        assert(e.subrange(pos, e.len() as int) =~= t + more);
        lemma_parse_tlv_append(t, more);
    }
}

/// The content of tag memory whose first `03` byte starts an NDEF TLV, after
/// bytes holding neither `03` nor `FE`: exactly the value that TLV parsing gives
/// (its header of two or four bytes skipped), or the TLV's parse error.
pub proof fn lemma_extract_is_first_tlv_value(prefix: Seq<u8>, tlv: Seq<u8>)
    requires
        !prefix.contains(NDEF_TLV),
        !prefix.contains(TERMINATOR_TLV),
        tlv.len() > 0,
        tlv[0] == NDEF_TLV,
    ensures
        spec_extract_ndef(prefix + tlv) == match spec_parse_tlv(tlv) {
            Ok((_, p)) => Ok::<Seq<u8>, TagError>(p),
            Err(f) => Err(TagError::Tlv(tlv_fault_message(f))),
        },
{
    let data = prefix + tlv;
    assert(data[prefix.len() as int] == NDEF_TLV);
    assert forall|j: int| 0 <= j < prefix.len() implies data[j] != NDEF_TLV && data[j]
        != TERMINATOR_TLV by {
        assert(data[j] == prefix[j]);
        if prefix[j] == NDEF_TLV {
            assert(prefix.contains(NDEF_TLV));
        }
        if prefix[j] == TERMINATOR_TLV {
            assert(prefix.contains(TERMINATOR_TLV));
        }
    }
    lemma_first_index_unique(data, NDEF_TLV, prefix.len() as int);
    if first_index(data, TERMINATOR_TLV) is Some {
        lemma_first_index_some(data, TERMINATOR_TLV);
    }
    assert(!terminator_first(data));
    assert(data.subrange(prefix.len() as int, data.len() as int) =~= tlv);
}

/// The content of tag memory is the first NDEF Message TLV, taken by its length:
/// bytes before its `03` tag (holding neither `03` nor `FE`) are skipped, a `FE`
/// inside its value is data, and whatever follows the TLV is ignored.
pub proof fn lemma_extract_first_ndef_tlv(prefix: Seq<u8>, p: Seq<u8>, rest: Seq<u8>)
    requires
        !prefix.contains(NDEF_TLV),
        !prefix.contains(TERMINATOR_TLV),
        p.len() < 255,
    ensures
        spec_extract_ndef(prefix + (seq![NDEF_TLV, p.len() as u8] + p + rest)) == Ok::<
            Seq<u8>,
            TagError,
        >(p),
{
    let tlv = seq![NDEF_TLV, p.len() as u8] + p + rest;
    assert(tlv[0] == NDEF_TLV);
    lemma_extract_is_first_tlv_value(prefix, tlv);
    lemma_short_tlv_roundtrip(p, rest);
}

/// The same for the three-byte length form `03 FF hi lo` (messages of up to
/// 65535 bytes, as on larger tags): the content is the message alone, the four
/// header bytes skipped.
pub proof fn lemma_extract_first_long_ndef_tlv(prefix: Seq<u8>, p: Seq<u8>, rest: Seq<u8>)
    requires
        !prefix.contains(NDEF_TLV),
        !prefix.contains(TERMINATOR_TLV),
        p.len() <= 0xFFFF,
    ensures
        spec_extract_ndef(
            prefix + (seq![NDEF_TLV, 0xFFu8, (p.len() / 256) as u8, (p.len() % 256) as u8] + p
                + rest),
        ) == Ok::<Seq<u8>, TagError>(p),
{
    let tlv = seq![NDEF_TLV, 0xFFu8, (p.len() / 256) as u8, (p.len() % 256) as u8] + p + rest;
    assert(tlv[0] == NDEF_TLV);
    lemma_extract_is_first_tlv_value(prefix, tlv);
    lemma_long_tlv_roundtrip(p, rest);
}

/// PC/SC command that reads the card's UID: `FF CA 00 00 00`.
pub fn get_uid_command() -> (cmd: Vec<u8>)
    ensures
        cmd@ == seq![0xFFu8, 0xCAu8, 0x00u8, 0x00u8, 0x00u8],
{
    let cmd = vec![0xFFu8, 0xCAu8, 0x00u8, 0x00u8, 0x00u8];
    assert(cmd@ =~= seq![0xFFu8, 0xCAu8, 0x00u8, 0x00u8, 0x00u8]);
    cmd
}

/// The UID in the response to `get_uid_command`, when the card answered `90 00`.
pub fn uid_from_response(response: &[u8]) -> (uid: Option<Vec<u8>>)
    ensures
        match uid {
            Some(u) => spec_is_success(response@) && u@ == spec_payload(response@),
            None => !spec_is_success(response@),
        },
{
    if is_success(response) {
        Some(vstd::slice::slice_to_vec(payload(response)))
    } else {
        None
    }
}

} // verus!
