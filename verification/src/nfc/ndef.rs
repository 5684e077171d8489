//! NDEF Text record extraction, with a raw-text fallback.
use vstd::prelude::*;
use vstd::utf8::{decode_utf8, valid_utf8};
use vstd::std_specs::iter::IteratorSpec;

verus! {

broadcast use {vstd::string::axiom_spec_iter, vstd::string::next_postcondition};

/// TNF code of an NFC Forum well-known record type.
pub const TNF_WELL_KNOWN: u8 = 0x01;

/// Record type of a Text record: `"T"`.
pub const RTD_TEXT: u8 = 0x54;

/// The characters that `String::from_utf8_lossy` makes of some bytes: invalid
/// sequences become U+FFFD.
pub uninterp spec fn utf8_lossy(bytes: Seq<u8>) -> Seq<char>;

/// `String::from_utf8_lossy`, owned. Claims that the result is `utf8_lossy` of the
/// bytes, and, as the documentation says, that valid UTF-8 comes back unchanged.
#[verifier::external_body]
fn string_from_utf8_lossy(bytes: &[u8]) -> (s: String)
    ensures
        s@ == utf8_lossy(bytes@),
        valid_utf8(bytes@) ==> s@ == decode_utf8(bytes@),
{
    String::from_utf8_lossy(bytes).into_owned()
}

/// A record of an NDEF message as plain values: its TNF code, type and payload.
pub struct NdefRecordParts {
    pub tnf: u8,
    pub record_type: Vec<u8>,
    pub payload: Vec<u8>,
}

impl View for NdefRecordParts {
    type V = (u8, Seq<u8>, Seq<u8>);

    open spec fn view(&self) -> (u8, Seq<u8>, Seq<u8>) {
        (self.tnf, self.record_type@, self.payload@)
    }
}

/// The records, as plain values, that `ndef_rs::NdefMessage::decode` finds in some
/// bytes; `None` when it reports an error.
pub uninterp spec fn ndef_decode(data: Seq<u8>) -> Option<Seq<(u8, Seq<u8>, Seq<u8>)>>;

/// `ndef_rs::NdefMessage::decode`, each record turned into its TNF code, type and
/// payload. Claims only that the result is `ndef_decode` of the bytes. Left unsaid:
/// the decoder allocates each record's declared payload length (up to 4 GiB) before
/// it reads the payload, so on a machine that cannot allocate that much a forged
/// length aborts the process instead of giving `None`.
#[verifier::external_body]
fn decode_ndef_records(data: &[u8]) -> (r: Option<Vec<NdefRecordParts>>)
    ensures
        match r {
            Some(v) => ndef_decode(data@) == Some(v@.map_values(|x: NdefRecordParts| x@)),
            None => ndef_decode(data@) is None,
        },
{
    match ndef_rs::NdefMessage::decode(data) {
        Ok(message) => Some(
            message.records().iter().map(|rec| NdefRecordParts {
                tnf: rec.tnf() as u8,
                record_type: rec.record_type().to_vec(),
                payload: rec.payload().to_vec(),
            }).collect(),
        ),
        Err(_) => None,
    }
}

/// The text of a record, when it is a well-known Text record whose payload holds
/// its status byte and language code: the bytes after them. The low six bits of
/// the status byte give the language code's length.
pub open spec fn text_record_body(rec: (u8, Seq<u8>, Seq<u8>)) -> Option<Seq<u8>> {
    let p = rec.2;
    if rec.0 != TNF_WELL_KNOWN || rec.1 != seq![RTD_TEXT] || p.len() == 0 {
        None
    } else if p.len() < 1 + (p[0] % 64) {
        None
    } else {
        Some(p.subrange(1 + (p[0] % 64), p.len() as int))
    }
}

/// The text of the first record that `text_record_body` accepts.
pub open spec fn first_text_body(recs: Seq<(u8, Seq<u8>, Seq<u8>)>) -> Option<Seq<u8>>
    decreases recs.len(),
{
    if recs.len() == 0 {
        None
    } else {
        match text_record_body(recs[0]) {
            Some(b) => Some(b),
            None => first_text_body(recs.drop_first()),
        }
    }
}

/// The text bytes of one record, if it is a Text record (see `text_record_body`).
pub fn text_body(rec: &NdefRecordParts) -> (r: Option<Vec<u8>>)
    ensures
        match text_record_body(rec@) {
            Some(b) => r matches Some(v) && v@ == b,
            None => r is None,
        },
{
    if rec.tnf != TNF_WELL_KNOWN {
        return None;
    }
    if !(rec.record_type.len() == 1 && rec.record_type[0] == RTD_TEXT) {
        assert(rec.record_type@ != seq![RTD_TEXT]);
        return None;
    }
    assert(rec.record_type@ =~= seq![RTD_TEXT]);
    let p = &rec.payload;
    if p.len() == 0 {
        return None;
    }
    let status = p[0];
    let lang_len = (status & 0x3F) as usize;
    assert(status & 0x3F == status % 64) by (bit_vector);
    if p.len() < 1 + lang_len {
        return None;
    }
    Some(vstd::slice::slice_to_vec(&p.as_slice()[1 + lang_len..p.len()]))
}

/// The text bytes of the first Text record among `records`.
pub fn find_text_body(records: &[NdefRecordParts]) -> (r: Option<Vec<u8>>)
    ensures
        match first_text_body(records@.map_values(|x: NdefRecordParts| x@)) {
            Some(b) => r matches Some(v) && v@ == b,
            None => r is None,
        },
{
    let ghost all = records@.map_values(|x: NdefRecordParts| x@);
    let mut i: usize = 0;
    assert(all.skip(0) =~= all);
    while i < records.len()
        invariant
            i <= records@.len(),
            all == records@.map_values(|x: NdefRecordParts| x@),
            first_text_body(all) == first_text_body(all.skip(i as int)),
        decreases records@.len() - i,
    {
        assert(all.skip(i as int)[0] == records@[i as int]@);
        assert(all.skip(i as int).drop_first() =~= all.skip(i as int + 1));
        match text_body(&records[i]) {
            Some(b) => {
                return Some(b);
            },
            None => {},
        }
        i = i + 1;
    }
    assert(all.skip(i as int).len() == 0);
    None
}

/// Whether `t` is the text that lossy UTF-8 decoding makes of `bytes`: it is
/// `utf8_lossy` of them, which for valid UTF-8 is their exact decoding.
pub open spec fn is_lossy_text(bytes: Seq<u8>, t: Seq<char>) -> bool {
    &&& t == utf8_lossy(bytes)
    &&& valid_utf8(bytes) ==> t == decode_utf8(bytes)
}

/// The text bytes of the first Text record of NDEF data, when the data decodes
/// and holds one.
pub open spec fn ndef_text_body(data: Seq<u8>) -> Option<Seq<u8>> {
    match ndef_decode(data) {
        Some(recs) => first_text_body(recs),
        None => None,
    }
}

/// Human-readable text of NDEF data: the text of its first Text record, decoded
/// as UTF-8 with invalid sequences replaced. `None` when the data does not
/// decode as an NDEF message or holds no Text record.
pub fn extract_text(data: &[u8]) -> (r: Option<String>)
    ensures
        match ndef_text_body(data@) {
            Some(b) => r matches Some(s) && is_lossy_text(b, s@),
            None => r is None,
        },
{
    match decode_ndef_records(data) {
        None => None,
        Some(records) => match find_text_body(records.as_slice()) {
            Some(body) => Some(string_from_utf8_lossy(body.as_slice())),
            None => None,
        },
    }
}

/// Bytes of raw data that the fallback text is made from, at most.
pub const FALLBACK_BYTES: usize = 32;

/// Whether a character is a control character (Unicode general category Cc):
/// U+0000 to U+001F and U+007F to U+009F, NUL among them.
pub open spec fn is_control_char(c: char) -> bool {
    (c as u32) < 0x20 || (0x7F <= (c as u32) && (c as u32) <= 0x9F)
}

/// `s` without its control characters.
pub open spec fn remove_controls(s: Seq<char>) -> Seq<char>
    decreases s.len(),
{
    if s.len() == 0 {
        s
    } else {
        remove_controls(s.drop_last()) + if is_control_char(s.last()) {
            Seq::empty()
        } else {
            seq![s.last()]
        }
    }
}

/// The first `FALLBACK_BYTES` bytes of raw data, or all of it when shorter.
pub open spec fn fallback_head(data: Seq<u8>) -> Seq<u8> {
    if data.len() > FALLBACK_BYTES {
        data.subrange(0, FALLBACK_BYTES as int)
    } else {
        data
    }
}

/// The length of `s` without its trailing zero bytes.
pub open spec fn trimmed_len(s: Seq<u8>) -> nat
    decreases s.len(),
{
    if s.len() == 0 {
        0
    } else if s.last() != 0 {
        s.len()
    } else {
        trimmed_len(s.drop_last())
    }
}

/// The bytes that the fallback text is made from: the first `FALLBACK_BYTES`,
/// without trailing zero bytes.
pub open spec fn fallback_bytes(data: Seq<u8>) -> Seq<u8> {
    fallback_head(data).subrange(0, trimmed_len(fallback_head(data)) as int)
}

/// Whether `t` is the fallback text of `data`: its first bytes, trailing zero
/// bytes cut, decoded as UTF-8 with invalid sequences replaced, then cleaned of
/// NULs and other control characters.
pub open spec fn is_fallback_text(data: Seq<u8>, t: Seq<char>) -> bool {
    &&& t == remove_controls(utf8_lossy(fallback_bytes(data)))
    &&& valid_utf8(fallback_bytes(data)) ==> t == remove_controls(decode_utf8(fallback_bytes(data)))
}

/// `String::push`. Claims what its documentation says: the character is appended.
#[verifier::external_body]
fn string_push(s: &mut String, c: char)
    ensures
        final(s)@ == old(s)@.push(c),
{
    s.push(c);
}

proof fn lemma_remove_controls_push(done: Seq<char>, c: char)
    ensures
        remove_controls(done.push(c)) == remove_controls(done) + if is_control_char(c) {
            Seq::<char>::empty()
        } else {
            seq![c]
        },
{
    assert(done.push(c).drop_last() =~= done);
}

/// A copy of `text` without its control characters.
fn without_controls(text: &str) -> (out: String)
    ensures
        out@ == remove_controls(text@),
{
    let mut out = String::new();
    let mut chars = text.chars();
    let ghost all = text@;
    let ghost mut done: Seq<char> = Seq::empty();
    assert(out@ =~= remove_controls(done));
    loop
        invariant
            all == text@,
            chars.obeys_prophetic_iter_laws(),
            chars.decrease() is Some,
            done + chars.remaining() == all,
            out@ == remove_controls(done),
        ensures
            done == all,
            out@ == remove_controls(done),
        decreases chars.decrease()->0,
    {
        match chars.next() {
            Some(c) => {
                let v = c as u32;
                if !(v < 0x20 || (v >= 0x7F && v <= 0x9F)) {
                    string_push(&mut out, c);
                }
                proof {
                    let ghost old_done = done;
                    done = done.push(c);
                    lemma_remove_controls_push(old_done, c);
                    assert(done + chars.remaining() =~= all);
                }
            },
            None => {
                proof {
                    assert(done =~= all);
                }
                break;
            },
        }
    }
    out
}

/// `trimmed_len` of `s` is the length up to its last nonzero byte.
proof fn lemma_trimmed_len_step(s: Seq<u8>, k: int)
    requires
        0 < k <= s.len(),
        s[k - 1] == 0,
    ensures
        trimmed_len(s.subrange(0, k)) == trimmed_len(s.subrange(0, k - 1)),
{
    assert(s.subrange(0, k).drop_last() =~= s.subrange(0, k - 1));
}

/// The first bytes of `data`, trailing zero bytes cut.
fn trim_trailing_zeros(head: &[u8]) -> (k: usize)
    ensures
        k == trimmed_len(head@),
{
    let mut k = head.len();
    assert(head@.subrange(0, k as int) =~= head@);
    while k > 0 && head[k - 1] == 0
        invariant
            k <= head.len(),
            trimmed_len(head@.subrange(0, k as int)) == trimmed_len(head@),
        decreases k,
    {
        proof {
            lemma_trimmed_len_step(head@, k as int);
        }
        k = k - 1;
    }
    if k > 0 {
        assert(head@.subrange(0, k as int).last() == head@[k - 1]);
    }
    k
}

/// Text for data that is not NDEF: its first 32 bytes, trailing zero bytes cut,
/// decoded as UTF-8 with invalid sequences replaced, cleaned of NULs and other
/// control characters.
pub fn fallback_text(data: &[u8]) -> (s: String)
    ensures
        is_fallback_text(data@, s@),
{
    let n = if data.len() > FALLBACK_BYTES {
        FALLBACK_BYTES
    } else {
        data.len()
    };
    let head = &data[0..n];
    assert(head@ =~= fallback_head(data@));
    let k = trim_trailing_zeros(head);
    proof {
        lemma_trimmed_len_le(head@);
    }
    let kept = &head[0..k];
    assert(kept@ =~= fallback_bytes(data@));
    let raw = string_from_utf8_lossy(kept);
    without_controls(raw.as_str())
}

/// `trimmed_len` never exceeds the length.
proof fn lemma_trimmed_len_le(s: Seq<u8>)
    ensures
        trimmed_len(s) <= s.len(),
    decreases s.len(),
{
    if s.len() > 0 && s.last() == 0 {
        lemma_trimmed_len_le(s.drop_last());
    }
}

/// Whether `t` is the text that a tag's content stands for: its NDEF text when
/// there is one, otherwise the fallback text.
pub open spec fn is_card_text(data: Seq<u8>, t: Seq<char>) -> bool {
    match ndef_text_body(data) {
        Some(b) => is_lossy_text(b, t),
        None => is_fallback_text(data, t),
    }
}

/// The text that a tag's content stands for (see `is_card_text`).
pub fn card_text(data: &[u8]) -> (s: String)
    ensures
        is_card_text(data@, s@),
{
    match extract_text(data) {
        Some(t) => t,
        None => fallback_text(data),
    }
}

/// The fallback text never holds a control character.
pub proof fn lemma_fallback_has_no_controls(s: Seq<char>)
    ensures
        forall|i: int| 0 <= i < remove_controls(s).len() ==> !is_control_char(
            #[trigger] remove_controls(s)[i],
        ),
    decreases s.len(),
{
    if s.len() > 0 {
        let t = s.drop_last();
        lemma_fallback_has_no_controls(t);
        let tail = if is_control_char(s.last()) {
            Seq::<char>::empty()
        } else {
            seq![s.last()]
        };
        assert(remove_controls(s) == remove_controls(t) + tail);
        assert forall|i: int| 0 <= i < remove_controls(s).len() implies !is_control_char(
            #[trigger] remove_controls(s)[i],
        ) by {
            if i < remove_controls(t).len() {
                assert(remove_controls(s)[i] == remove_controls(t)[i]);
            } else {
                assert(remove_controls(s)[i] == tail[i - remove_controls(t).len()]);
            }
        }
    }
}

/// Only the first 32 bytes of raw data make its fallback text: bytes after them
/// change nothing.
pub proof fn lemma_fallback_uses_first_bytes(data: Seq<u8>, more: Seq<u8>)
    requires
        data.len() >= FALLBACK_BYTES,
    ensures
        fallback_bytes(data + more) == fallback_bytes(data),
{
    assert((data + more).subrange(0, FALLBACK_BYTES as int) =~= data.subrange(0, FALLBACK_BYTES as int));
    if data.len() == FALLBACK_BYTES {
        assert(data.subrange(0, FALLBACK_BYTES as int) =~= data);
    }
}

/// Removing control characters keeps a text without any.
proof fn lemma_remove_controls_keeps(s: Seq<char>)
    requires
        forall|i: int| 0 <= i < s.len() ==> !is_control_char(#[trigger] s[i]),
    ensures
        remove_controls(s) == s,
    decreases s.len(),
{
    if s.len() > 0 {
        assert forall|i: int| 0 <= i < s.drop_last().len() implies !is_control_char(
            #[trigger] s.drop_last()[i],
        ) by {
            assert(s.drop_last()[i] == s[i]);
        }
        lemma_remove_controls_keeps(s.drop_last());
        assert(!is_control_char(s[s.len() - 1]));
        assert(remove_controls(s) =~= s);
    } else {
        assert(remove_controls(s) =~= s);
    }
}

/// When `k` is the length of `s` up to its last nonzero byte, `trimmed_len`
/// of `s` is `k`.
proof fn lemma_trimmed_len_is(s: Seq<u8>, k: int)
    requires
        0 <= k <= s.len(),
        forall|i: int| k <= i < s.len() ==> s[i] == 0,
        k == 0 || s[k - 1] != 0,
    ensures
        trimmed_len(s) == k,
    decreases s.len(),
{
    if s.len() > k {
        let t = s.drop_last();
        assert forall|i: int| k <= i < t.len() implies t[i] == 0 by {
            assert(t[i] == s[i]);
        }
        if k > 0 {
            assert(t[k - 1] == s[k - 1]);
        }
        lemma_trimmed_len_is(t, k);
    }
}

/// The fallback text of raw data is made of its bytes up to the last nonzero
/// one: trailing NUL bytes are cut before decoding. When those bytes fit in the
/// first 32, the fallback text is their lossy decoding cleaned of control
/// characters; and when that decoding has none, it is the decoding itself.
pub proof fn lemma_fallback_trims_trailing_nuls(data: Seq<u8>, k: nat)
    requires
        k <= FALLBACK_BYTES,
        k <= data.len(),
        forall|i: int| k <= i < data.len() ==> data[i] == 0,
        k == 0 || data[k - 1] != 0,
    ensures
        fallback_bytes(data) == data.subrange(0, k as int),
        forall|t: Seq<char>| #[trigger] is_fallback_text(data, t) ==> t == remove_controls(
            utf8_lossy(data.subrange(0, k as int)),
        ),
        (forall|i: int|
            0 <= i < utf8_lossy(data.subrange(0, k as int)).len() ==> !is_control_char(
                #[trigger] utf8_lossy(data.subrange(0, k as int))[i],
            )) ==> forall|t: Seq<char>| #[trigger] is_fallback_text(data, t) ==> t == utf8_lossy(
            data.subrange(0, k as int),
        ),
{
    let h = fallback_head(data);
    assert forall|i: int| k <= i < h.len() implies h[i] == 0 by {
        assert(h[i] == data[i]);
    }
    if k > 0 {
        assert(h[k - 1] == data[k - 1]);
    }
    lemma_trimmed_len_is(h, k as int);
    assert(fallback_bytes(data) =~= data.subrange(0, k as int));
    let text = utf8_lossy(data.subrange(0, k as int));
    if forall|i: int| 0 <= i < text.len() ==> !is_control_char(#[trigger] text[i]) {
        lemma_remove_controls_keeps(text);
    }
}

/// The first Text record decides the text: records after it are never looked at.
pub proof fn lemma_first_text_record_wins(
    recs: Seq<(u8, Seq<u8>, Seq<u8>)>,
    later: Seq<(u8, Seq<u8>, Seq<u8>)>,
)
    requires
        first_text_body(recs) is Some,
    ensures
        first_text_body(recs + later) == first_text_body(recs),
    decreases recs.len(),
{
    assert((recs + later)[0] == recs[0]);
    if text_record_body(recs[0]) is None {
        assert((recs + later).drop_first() =~= recs.drop_first() + later);
        lemma_first_text_record_wins(recs.drop_first(), later);
    }
}

/// Records that are not Text records are passed over in the search for one.
proof fn lemma_first_text_body_skips(
    others: Seq<(u8, Seq<u8>, Seq<u8>)>,
    tail: Seq<(u8, Seq<u8>, Seq<u8>)>,
)
    requires
        forall|j: int| 0 <= j < others.len() ==> (#[trigger] text_record_body(others[j])) is None,
    ensures
        first_text_body(others + tail) == first_text_body(tail),
    decreases others.len(),
{
    if others.len() > 0 {
        assert((others + tail)[0] == others[0]);
        assert((others + tail).drop_first() =~= others.drop_first() + tail);
        assert forall|j: int| 0 <= j < others.drop_first().len() implies (#[trigger] text_record_body(
            others.drop_first()[j],
        )) is None by {
            assert(others.drop_first()[j] == others[j + 1]);
        }
        lemma_first_text_body_skips(others.drop_first(), tail);
    } else {
        assert(others + tail =~= tail);
    }
}

/// The text of a tag whose content decodes to NDEF records holding a Text record
/// is that record's whole text, whatever its length: the bytes after its status
/// byte and language code, decoded as UTF-8 with invalid sequences replaced
/// (exactly decoded when valid). Records before it that are not Text records
/// and records after it play no part, and the raw fallback is not used.
pub proof fn lemma_card_text_is_whole_text_record(
    data: Seq<u8>,
    others: Seq<(u8, Seq<u8>, Seq<u8>)>,
    status: u8,
    lang: Seq<u8>,
    text: Seq<u8>,
    later: Seq<(u8, Seq<u8>, Seq<u8>)>,
)
    requires
        ndef_decode(data) == Some(
            others + seq![(TNF_WELL_KNOWN, seq![RTD_TEXT], seq![status] + lang + text)] + later,
        ),
        forall|j: int| 0 <= j < others.len() ==> (#[trigger] text_record_body(others[j])) is None,
        lang.len() == status % 64,
    ensures
        ndef_text_body(data) == Some(text),
        forall|t: Seq<char>| #[trigger] is_card_text(data, t) ==> t == utf8_lossy(text),
        valid_utf8(text) ==> forall|t: Seq<char>| #[trigger] is_card_text(data, t) ==> t
            == decode_utf8(text),
{
    let rec = (TNF_WELL_KNOWN, seq![RTD_TEXT], seq![status] + lang + text);
    let p = rec.2;
    assert(p[0] == status);
    assert(p.subrange(1 + (status % 64), p.len() as int) =~= text);
    assert(text_record_body(rec) == Some(text));
    let tail = seq![rec] + later;
    assert(others + seq![rec] + later =~= others + tail);
    lemma_first_text_body_skips(others, tail);
    assert(tail[0] == rec);
    assert(first_text_body(tail) == Some(text));
}

/// When NDEF data holds a Text record, the card's text is the text that
/// `extract_text` gives for it: the lossy decoding of the record's whole body.
pub proof fn lemma_card_text_agrees_with_extract_text(data: Seq<u8>, t: Seq<char>, e: Seq<char>)
    requires
        ndef_text_body(data) is Some,
        is_card_text(data, t),
        is_lossy_text(ndef_text_body(data).unwrap(), e),
    ensures
        t == e,
        t == utf8_lossy(ndef_text_body(data).unwrap()),
{
}

} // verus!
