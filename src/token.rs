use crate::apdu::{Apdu, StatusWord, GA_CHALLENGE, GA_RESPONSE, INS_CONTINUE, PIV_AID};
use crate::error::{tlv_error, PivError};
use crate::guid::Guid;
use crate::slot::cert_tag_of;
use crate::tlv::{
    is_tlv_err, lemma_tlv_advances, scan_first, scan_last, tag_at, tlv_encoding, value_at,
    TlvReader, TlvWriter,
};
use vstd::prelude::*;
use vstd::slice::slice_to_vec;

verus! {

/// CHUID data object tag (NIST SP 800-73-4).
pub const PIV_TAG_CHUID: u32 = 0x5FC102;

/// Tag of the GUID within the CHUID.
pub const CHUID_TAG_GUID: u32 = 0x34;

/// Tag that wraps every PIV data object.
pub const TAG_DATA_OBJECT: u32 = 0x53;

/// Tag of the certificate within a certificate data object.
pub const TAG_CERTIFICATE: u32 = 0x70;

/// Tag of the dynamic authentication template.
pub const TAG_DYNAMIC_AUTH: u32 = 0x7C;

/// The status word "security status not satisfied".
pub const SW_AUTH_REQUIRED: u16 = 0x6982;

/// The status word "authentication method blocked".
pub const SW_PIN_BLOCKED: u16 = 0x6983;

/// The data bytes of a raw response: all but the status word.
pub open spec fn payload(resp: Seq<u8>) -> Seq<u8> {
    resp.subrange(0, resp.len() - 2)
}

/// The status word at the end of a raw response.
pub open spec fn status_of(resp: Seq<u8>) -> StatusWord {
    StatusWord(resp[resp.len() - 2], resp[resp.len() - 1])
}

/// Split a raw card response into its data and its status word.
pub fn split_response(resp: &[u8]) -> (r: Result<(Vec<u8>, StatusWord), PivError>)
    ensures
        resp@.len() >= 2 ==> r is Ok && r->Ok_0.0@ == payload(resp@) && r->Ok_0.1 == status_of(
            resp@,
        ),
        resp@.len() < 2 ==> r is Err && r->Err_0 is Other,
{
    let len = resp.len();
    if len < 2 {
        return Err(PivError::Other("response too short for a status word".to_owned()));
    }
    let sw = StatusWord::from_bytes(resp[len - 2], resp[len - 1]);
    let data = slice_to_vec(&resp[0..len - 2]);
    Ok((data, sw))
}

/// GET RESPONSE asking for the `remaining` bytes that the card announced.
pub fn get_response(remaining: u8) -> (r: Apdu)
    ensures
        r.cla == 0x00 && r.ins == INS_CONTINUE && r.p1 == 0x00 && r.p2 == 0x00,
        r.data@ == Seq::<u8>::empty(),
        r.le == Some(remaining as u16),
{
    let mut apdu = Apdu::new(0x00, INS_CONTINUE, 0x00, 0x00);
    apdu.le = Some(remaining as u16);
    apdu
}

/// The response to one command, reassembled across `61xx` chaining: while
/// the last status word is `61xx`, the caller sends `next_command` and hands
/// the raw answer to `absorb`.
pub struct ResponseChain {
    data: Vec<u8>,
    sw: StatusWord,
}

impl ResponseChain {
    /// The payload gathered so far.
    pub closed spec fn spec_data(&self) -> Seq<u8> {
        self.data@
    }

    /// The last status word received.
    pub closed spec fn spec_sw(&self) -> StatusWord {
        self.sw
    }

    /// Start from the first raw response.
    pub fn start(resp: &[u8]) -> (r: Result<ResponseChain, PivError>)
        ensures
            resp@.len() >= 2 ==> r is Ok && r->Ok_0.spec_data() == payload(resp@)
                && r->Ok_0.spec_sw() == status_of(resp@),
            resp@.len() < 2 ==> r is Err && r->Err_0 is Other,
    {
        match split_response(resp) {
            Ok((data, sw)) => Ok(ResponseChain { data, sw }),
            Err(e) => Err(e),
        }
    }

    /// Whether the card has more data waiting (status `61xx`).
    pub fn is_complete(&self) -> (r: bool)
        ensures
            r == (self.spec_sw().0 != 0x61),
    {
        !self.sw.has_more_data()
    }

    /// The GET RESPONSE to send next, while the card has more data waiting.
    pub fn next_command(&self) -> (r: Option<Apdu>)
        ensures
            self.spec_sw().0 == 0x61 ==> r is Some && r->0.cla == 0x00 && r->0.ins == INS_CONTINUE
                && r->0.p1 == 0x00 && r->0.p2 == 0x00 && r->0.data@ == Seq::<u8>::empty()
                && r->0.le == Some(self.spec_sw().1 as u16),
            self.spec_sw().0 != 0x61 ==> r is None,
    {
        if self.sw.has_more_data() {
            Some(get_response(self.sw.remaining_bytes()))
        } else {
            None
        }
    }

    /// Append the payload of a chained raw response and take its status word.
    /// On failure the chain is unchanged.
    pub fn absorb(&mut self, resp: &[u8]) -> (r: Result<(), PivError>)
        ensures
            resp@.len() >= 2 ==> r is Ok && final(self).spec_data() == old(self).spec_data()
                + payload(resp@) && final(self).spec_sw() == status_of(resp@),
            resp@.len() < 2 ==> r is Err && r->Err_0 is Other && *final(self) == *old(self),
    {
        let len = resp.len();
        if len < 2 {
            return Err(PivError::Other("chained response too short".to_owned()));
        }
        self.sw = StatusWord::from_bytes(resp[len - 2], resp[len - 1]);
        let mut i: usize = 0;
        let ghost d0 = self.data@;
        while i < len - 2
            invariant
                len == resp@.len(),
                i <= len - 2,
                self.data@ == d0 + resp@.subrange(0, i as int),
                self.sw == status_of(resp@),
            decreases len - 2 - i,
        {
            self.data.push(resp[i]);
            i = i + 1;
            assert(resp@.subrange(0, i as int) =~= resp@.subrange(0, i - 1) + seq![resp@[i - 1]]);
            assert(self.data@ =~= d0 + resp@.subrange(0, i as int));
        }
        Ok(())
    }

    /// The whole payload and the final status word.
    pub fn finish(self) -> (r: (Vec<u8>, StatusWord))
        ensures
            r.0@ == self.spec_data(),
            r.1 == self.spec_sw(),
    {
        (self.data, self.sw)
    }
}

/// The error for a status word that no more specific kind covers.
pub open spec fn apdu_error(sw: StatusWord) -> PivError {
    PivError::Apdu { sw: sw.spec_u16() }
}

/// The SELECT of the PIV application.
pub fn select_piv_command() -> (r: Apdu)
    ensures
        r.cla == 0x00 && r.ins == 0xA4 && r.p1 == 0x04 && r.p2 == 0x00,
        r.data@ == PIV_AID@,
        r.le is None,
{
    Apdu::select(PIV_AID.as_slice())
}

/// The outcome of SELECT: anything but `90 00` aborts.
pub fn check_select(sw: StatusWord) -> (r: Result<(), PivError>)
    ensures
        r == (if sw.0 == 0x90 && sw.1 == 0x00 {
            Ok::<(), PivError>(())
        } else {
            Err(apdu_error(sw))
        }),
{
    if sw.is_success() {
        Ok(())
    } else {
        Err(PivError::Apdu { sw: sw.as_u16() })
    }
}

/// The outcome of reading the CHUID, over its response bytes: the GUID
/// bytes (tag 0x34) inside the 0x53 wrapper, `Some(None)` if the wrapper or
/// the GUID is missing, `None` if the TLV bytes are malformed.
pub open spec fn chuid_guid(d: Seq<u8>) -> Option<Option<Seq<u8>>> {
    match tag_at(d, 0) {
        None => None,
        Some((t, p)) => if t != TAG_DATA_OBJECT {
            Some(None)
        } else {
            match value_at(d, p) {
                None => None,
                Some((inner, _)) => scan_first(inner, 0, CHUID_TAG_GUID),
            }
        },
    }
}

/// Read the GUID from a GET DATA response for the CHUID.
pub fn parse_chuid(data: &[u8], sw: StatusWord) -> (r: Result<Guid, PivError>)
    ensures
        !(sw.0 == 0x90 && sw.1 == 0x00) ==> r == Err::<Guid, PivError>(apdu_error(sw)),
        sw.0 == 0x90 && sw.1 == 0x00 ==> match chuid_guid(data@) {
            Some(Some(g)) => if g.len() == 16 {
                r is Ok && r->Ok_0@ == g
            } else {
                r is Err && r->Err_0 is InvalidGuid
            },
            _ => is_tlv_err(r),
        },
{
    if !sw.is_success() {
        return Err(PivError::Apdu { sw: sw.as_u16() });
    }
    let mut reader = TlvReader::new(data);
    let outer = match reader.read_tag() {
        Ok(t) => t,
        Err(e) => return Err(e),
    };
    if outer != TAG_DATA_OBJECT {
        return Err(tlv_error("expected the CHUID wrapper tag 0x53"));
    }
    let inner = match reader.read_value() {
        Ok(v) => v,
        Err(e) => return Err(e),
    };
    let mut items = TlvReader::new(inner);
    loop
        invariant
            items.wf(),
            items.bytes() == inner@,
            sw.0 == 0x90 && sw.1 == 0x00,
            chuid_guid(data@) == scan_first(inner@, 0, CHUID_TAG_GUID),
            scan_first(inner@, items.position(), CHUID_TAG_GUID) == scan_first(
                inner@,
                0,
                CHUID_TAG_GUID,
            ),
        decreases inner@.len() - items.position(),
    {
        if !items.has_remaining() {
            return Err(tlv_error("GUID tag 0x34 not found in the CHUID"));
        }
        let ghost pos = items.position();
        proof {
            items.lemma_cursor();
        }
        let tag = match items.read_tag() {
            Ok(t) => t,
            Err(e) => return Err(e),
        };
        let value = match items.read_value() {
            Ok(v) => v,
            Err(e) => return Err(e),
        };
        proof {
            lemma_tlv_advances(inner@, pos);
            let (_, after_tag) = tag_at(inner@, pos)->0;
            lemma_tlv_advances(inner@, after_tag);
        }
        if tag == CHUID_TAG_GUID {
            return Guid::from_bytes(value);
        }
    }
}

/// The outcome of reading a certificate object, over its response bytes:
/// the value of the last 0x70 item inside the 0x53 wrapper, `Some(None)` if
/// there is none, `None` if the TLV bytes are malformed or the wrapper tag
/// is another.
pub open spec fn cert_object(d: Seq<u8>) -> Option<Option<Seq<u8>>> {
    match tag_at(d, 0) {
        None => None,
        Some((t, p)) => if t != TAG_DATA_OBJECT {
            None
        } else {
            match value_at(d, p) {
                None => None,
                Some((inner, _)) => scan_last(inner, 0, TAG_CERTIFICATE, None),
            }
        },
    }
}

/// Extract the DER certificate from a GET DATA response for a slot's
/// certificate object. A failed status or a missing certificate means the
/// slot is empty; items other than 0x70 are skipped.
pub fn parse_cert_object(slot_id: u8, data: &[u8], sw: StatusWord) -> (r: Result<
    Vec<u8>,
    PivError,
>)
    ensures
        !(sw.0 == 0x90 && sw.1 == 0x00) ==> r == Err::<Vec<u8>, PivError>(
            PivError::SlotEmpty(slot_id),
        ),
        sw.0 == 0x90 && sw.1 == 0x00 ==> match cert_object(data@) {
            Some(Some(c)) => r is Ok && r->Ok_0@ == c,
            Some(None) => r == Err::<Vec<u8>, PivError>(PivError::SlotEmpty(slot_id)),
            None => is_tlv_err(r),
        },
{
    if !sw.is_success() {
        return Err(PivError::SlotEmpty(slot_id));
    }
    let mut reader = TlvReader::new(data);
    let outer = match reader.read_tag() {
        Ok(t) => t,
        Err(e) => return Err(e),
    };
    if outer != TAG_DATA_OBJECT {
        return Err(tlv_error("expected the certificate wrapper tag 0x53"));
    }
    let inner = match reader.read_value() {
        Ok(v) => v,
        Err(e) => return Err(e),
    };
    let mut items = TlvReader::new(inner);
    let mut cert: Option<&[u8]> = None;
    while items.has_remaining()
        invariant
            items.wf(),
            items.bytes() == inner@,
            sw.0 == 0x90 && sw.1 == 0x00,
            cert_object(data@) == scan_last(inner@, 0, TAG_CERTIFICATE, None),
            scan_last(
                inner@,
                items.position(),
                TAG_CERTIFICATE,
                match cert {
                    Some(c) => Some(c@),
                    None => None,
                },
            ) == scan_last(inner@, 0, TAG_CERTIFICATE, None),
        decreases inner@.len() - items.position(),
    {
        let ghost pos = items.position();
        proof {
            items.lemma_cursor();
        }
        let ghost found: Option<Seq<u8>> = match cert {
            Some(c) => Some(c@),
            None => None,
        };
        let tag = match items.read_tag() {
            Ok(t) => t,
            Err(e) => {
                assert(scan_last(inner@, pos, TAG_CERTIFICATE, found) is None);
                return Err(e);
            },
        };
        let value = match items.read_value() {
            Ok(v) => v,
            Err(e) => {
                assert(scan_last(inner@, pos, TAG_CERTIFICATE, found) is None);
                return Err(e);
            },
        };
        proof {
            lemma_tlv_advances(inner@, pos);
            let (_, after_tag) = tag_at(inner@, pos)->0;
            lemma_tlv_advances(inner@, after_tag);
        }
        if tag == TAG_CERTIFICATE {
            cert = Some(value);
        }
    }
    match cert {
        Some(c) => Ok(slice_to_vec(c)),
        None => Err(PivError::SlotEmpty(slot_id)),
    }
}

/// The GET DATA command for a slot's certificate, if the slot is a key slot.
pub fn read_slot_command(slot_id: u8) -> (r: Result<Apdu, PivError>)
    ensures
        cert_tag_of(slot_id) is None ==> r == Err::<Apdu, PivError>(PivError::SlotEmpty(slot_id)),
        cert_tag_of(slot_id) is Some ==> r is Ok && r->Ok_0.ins == 0xCB && r->Ok_0.p1 == 0x3F
            && r->Ok_0.p2 == 0xFF && r->Ok_0.data@ == tlv_encoding(
            0x5C,
            crate::tlv::tag_bytes(cert_tag_of(slot_id)->0),
        ),
{
    match crate::slot::slot_to_cert_tag(slot_id) {
        Some(tag) => Ok(Apdu::get_data(tag)),
        None => Err(PivError::SlotEmpty(slot_id)),
    }
}

/// The dynamic authentication template of a signing request:
/// `7C { 82 (empty), 81 data }`.
pub open spec fn sign_template(data: Seq<u8>) -> Seq<u8> {
    tlv_encoding(
        TAG_DYNAMIC_AUTH,
        tlv_encoding(GA_RESPONSE as u32, Seq::<u8>::empty()) + tlv_encoding(
            GA_CHALLENGE as u32,
            data,
        ),
    )
}

/// GENERAL AUTHENTICATE asking the key in `slot_id` to sign `data`.
pub fn sign_command(alg_byte: u8, slot_id: u8, data: &[u8]) -> (r: Apdu)
    requires
        data@.len() < 0xFF_0000,
    ensures
        r.cla == 0x00 && r.ins == 0x87 && r.p1 == alg_byte && r.p2 == slot_id,
        r.data@ == sign_template(data@),
        r.le is None,
{
    let mut inner = TlvWriter::new();
    let empty: [u8; 0] = [];
    inner.write_tag_value(GA_RESPONSE as u32, empty.as_slice());
    inner.write_tag_value(GA_CHALLENGE as u32, data);
    let mut outer = TlvWriter::new();
    outer.write_tag_value(TAG_DYNAMIC_AUTH, inner.as_bytes());
    assert(outer@ =~= sign_template(data@));
    Apdu::general_authenticate(alg_byte, slot_id, outer.as_bytes())
}

/// The outcome of GENERAL AUTHENTICATE, over its response bytes: the value
/// of the first item (tag 0x82) inside the 0x7C template, `Some(None)` if a
/// tag is another, `None` if the TLV bytes are malformed.
pub open spec fn sign_response(d: Seq<u8>) -> Option<Option<Seq<u8>>> {
    match tag_at(d, 0) {
        None => None,
        Some((t, p)) => if t != TAG_DYNAMIC_AUTH {
            Some(None)
        } else {
            match value_at(d, p) {
                None => None,
                Some((inner, _)) => match tag_at(inner, 0) {
                    None => None,
                    Some((t2, p2)) => if t2 != GA_RESPONSE as u32 {
                        Some(None)
                    } else {
                        match value_at(inner, p2) {
                            None => None,
                            Some((sig, _)) => Some(Some(sig)),
                        }
                    },
                },
            }
        },
    }
}

/// The signature bytes from a GENERAL AUTHENTICATE response. `69 82` means
/// that a PIN is needed; any other failed status is an APDU error.
pub fn parse_sign_response(resp: &[u8], sw: StatusWord) -> (r: Result<Vec<u8>, PivError>)
    ensures
        sw.spec_u16() == SW_AUTH_REQUIRED ==> r == Err::<Vec<u8>, PivError>(PivError::PinRequired),
        sw.spec_u16() != SW_AUTH_REQUIRED && !(sw.0 == 0x90 && sw.1 == 0x00) ==> r == Err::<
            Vec<u8>,
            PivError,
        >(apdu_error(sw)),
        sw.0 == 0x90 && sw.1 == 0x00 ==> match sign_response(resp@) {
            Some(Some(sig)) => r is Ok && r->Ok_0@ == sig,
            _ => is_tlv_err(r),
        },
{
    if sw.as_u16() == SW_AUTH_REQUIRED {
        return Err(PivError::PinRequired);
    }
    if !sw.is_success() {
        return Err(PivError::Apdu { sw: sw.as_u16() });
    }
    let mut reader = TlvReader::new(resp);
    let outer = match reader.read_tag() {
        Ok(t) => t,
        Err(e) => return Err(e),
    };
    if outer != TAG_DYNAMIC_AUTH {
        return Err(tlv_error("expected the response template tag 0x7C"));
    }
    let inner = match reader.read_value() {
        Ok(v) => v,
        Err(e) => return Err(e),
    };
    let mut inner_reader = TlvReader::new(inner);
    let tag = match inner_reader.read_tag() {
        Ok(t) => t,
        Err(e) => return Err(e),
    };
    if tag != GA_RESPONSE as u32 {
        return Err(tlv_error("expected the response tag 0x82"));
    }
    match inner_reader.read_value() {
        Ok(sig) => Ok(slice_to_vec(sig)),
        Err(e) => Err(e),
    }
}

/// The outcome of VERIFY: `90 00` succeeds, `63 Cx` is a wrong PIN with `x`
/// retries left, `69 83` a blocked PIN, anything else an APDU error.
pub fn check_verify_pin(sw: StatusWord) -> (r: Result<(), PivError>)
    ensures
        sw.0 == 0x90 && sw.1 == 0x00 ==> r == Ok::<(), PivError>(()),
        sw.spec_is_pin_incorrect() ==> r == Err::<(), PivError>(
            PivError::PinIncorrect { retries: (sw.1 & 0x0F) as u32 },
        ),
        !(sw.0 == 0x90 && sw.1 == 0x00) && !sw.spec_is_pin_incorrect() && sw.spec_u16()
            == SW_PIN_BLOCKED ==> r == Err::<(), PivError>(PivError::PinBlocked),
        !(sw.0 == 0x90 && sw.1 == 0x00) && !sw.spec_is_pin_incorrect() && sw.spec_u16()
            != SW_PIN_BLOCKED ==> r == Err::<(), PivError>(apdu_error(sw)),
{
    if sw.is_success() {
        Ok(())
    } else if sw.is_pin_incorrect() {
        let retries = match sw.pin_retries_remaining() {
            Some(n) => n,
            None => 0,
        };
        Err(PivError::PinIncorrect { retries: retries as u32 })
    } else if sw.as_u16() == SW_PIN_BLOCKED {
        Err(PivError::PinBlocked)
    } else {
        Err(PivError::Apdu { sw: sw.as_u16() })
    }
}

} // verus!
