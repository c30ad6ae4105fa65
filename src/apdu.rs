use crate::tlv::{tag_bytes, tag_to_bytes, tlv_encoding, TlvWriter};
use vstd::prelude::*;
use vstd::slice::slice_to_vec;
use vstd::string::StringExecFns;
use crate::guid::{encode_hex_upper, upper_hex};

verus! {

/// PIV application AID (NIST SP 800-73-4).
pub const PIV_AID: [u8; 11] = [0xA0, 0x00, 0x00, 0x03, 0x08, 0x00, 0x00, 0x10, 0x00, 0x01, 0x00];

/// YubiKey PIV management AID.
pub const YKPIV_AID: [u8; 8] = [0xA0, 0x00, 0x00, 0x05, 0x27, 0x47, 0x11, 0x17];

/// ISO 7816-4 instruction codes.
pub const INS_SELECT: u8 = 0xA4;
pub const INS_GET_DATA: u8 = 0xCB;
pub const INS_VERIFY: u8 = 0x20;
pub const INS_CHANGE_PIN: u8 = 0x24;
pub const INS_RESET_PIN: u8 = 0x2C;
pub const INS_GEN_AUTH: u8 = 0x87;
pub const INS_PUT_DATA: u8 = 0xDB;
pub const INS_GEN_ASYM: u8 = 0x47;
pub const INS_CONTINUE: u8 = 0xC0;

/// PIV slot IDs.
pub const SLOT_PIV_AUTH: u8 = 0x9A;
pub const SLOT_SIGNATURE: u8 = 0x9C;
pub const SLOT_KEY_MGMT: u8 = 0x9D;
pub const SLOT_CARD_AUTH: u8 = 0x9E;
pub const SLOT_RETIRED_1: u8 = 0x82;
pub const SLOT_RETIRED_20: u8 = 0x95;

/// PIV algorithm identifiers.
pub const ALG_TDEA_3KEY: u8 = 0x03;
pub const ALG_AES128: u8 = 0x08;
pub const ALG_AES192: u8 = 0x0A;
pub const ALG_AES256: u8 = 0x0C;
pub const ALG_RSA1024: u8 = 0x06;
pub const ALG_RSA2048: u8 = 0x07;
pub const ALG_ECCP256: u8 = 0x11;
pub const ALG_ECCP384: u8 = 0x14;
pub const ALG_ED25519: u8 = 0x22;
pub const ALG_X25519: u8 = 0x23;

/// GENERAL AUTHENTICATE dynamic template tags.
pub const GA_WITNESS: u8 = 0x80;
pub const GA_CHALLENGE: u8 = 0x81;
pub const GA_RESPONSE: u8 = 0x82;
pub const GA_EXPONENT: u8 = 0x85;

/// Tag of the data-object list in a GET DATA command.
pub const GET_DATA_TAG_LIST: u32 = 0x5C;

/// ISO 7816-4 command APDU.
pub struct Apdu {
    pub cla: u8,
    pub ins: u8,
    pub p1: u8,
    pub p2: u8,
    pub data: Vec<u8>,
    pub le: Option<u16>,
}

/// The Le byte: 256 and above encode as `0x00`.
pub open spec fn le_byte(le: u16) -> u8 {
    if le >= 256 {
        0
    } else {
        le as u8
    }
}

/// The short-form encoding of a command: header, then `Lc` and the data if
/// there is data, then `Le` if it is set.
pub open spec fn apdu_encoding(cla: u8, ins: u8, p1: u8, p2: u8, data: Seq<u8>, le: Option<u16>) -> Seq<u8> {
    seq![cla, ins, p1, p2] + (if data.len() > 0 {
        seq![data.len() as u8] + data
    } else {
        Seq::<u8>::empty()
    }) + match le {
        Some(l) => seq![le_byte(l)],
        None => Seq::<u8>::empty(),
    }
}

/// The 8-byte PIN block: the PIN truncated to 8 bytes, right-padded with `0xFF`.
pub open spec fn pin_block(pin: Seq<u8>) -> Seq<u8> {
    Seq::new(8, |i: int| if i < pin.len() { pin[i] } else { 0xFFu8 })
}

impl Apdu {
    /// The encoding of this command.
    pub open spec fn spec_bytes(&self) -> Seq<u8> {
        apdu_encoding(self.cla, self.ins, self.p1, self.p2, self.data@, self.le)
    }

    pub fn new(cla: u8, ins: u8, p1: u8, p2: u8) -> (r: Self)
        ensures
            r.cla == cla && r.ins == ins && r.p1 == p1 && r.p2 == p2,
            r.data@ == Seq::<u8>::empty(),
            r.le is None,
    {
        Apdu { cla, ins, p1, p2, data: Vec::new(), le: None }
    }

    /// SELECT by AID: `00 A4 04 00 | aid`.
    pub fn select(aid: &[u8]) -> (r: Self)
        ensures
            r.cla == 0x00 && r.ins == INS_SELECT && r.p1 == 0x04 && r.p2 == 0x00,
            r.data@ == aid@,
            r.le is None,
    {
        Apdu { cla: 0x00, ins: INS_SELECT, p1: 0x04, p2: 0x00, data: slice_to_vec(aid), le: None }
    }

    /// GET DATA for a data object: `00 CB 3F FF | TLV(0x5C, tag bytes)`.
    pub fn get_data(tag: u32) -> (r: Self)
        ensures
            r.cla == 0x00 && r.ins == INS_GET_DATA && r.p1 == 0x3F && r.p2 == 0xFF,
            r.data@ == tlv_encoding(GET_DATA_TAG_LIST, tag_bytes(tag)),
            r.le is None,
    {
        let mut tlv = TlvWriter::new();
        let tag_bytes = tag_to_bytes(tag);
        tlv.write_tag_value(GET_DATA_TAG_LIST, tag_bytes.as_slice());
        let data = tlv.into_vec();
        proof {
            assert(data@ =~= tlv_encoding(GET_DATA_TAG_LIST, tag_bytes@));
        }
        Apdu { cla: 0x00, ins: INS_GET_DATA, p1: 0x3F, p2: 0xFF, data, le: None }
    }

    /// GENERAL AUTHENTICATE: `00 87 alg slot | data`.
    pub fn general_authenticate(alg: u8, slot: u8, data: &[u8]) -> (r: Self)
        ensures
            r.cla == 0x00 && r.ins == INS_GEN_AUTH && r.p1 == alg && r.p2 == slot,
            r.data@ == data@,
            r.le is None,
    {
        Apdu { cla: 0x00, ins: INS_GEN_AUTH, p1: alg, p2: slot, data: slice_to_vec(data), le: None }
    }

    /// VERIFY for the PIV PIN: `00 20 00 80 | PIN block`.
    pub fn verify_pin(pin: &[u8]) -> (r: Self)
        ensures
            r.cla == 0x00 && r.ins == INS_VERIFY && r.p1 == 0x00 && r.p2 == 0x80,
            r.data@ == pin_block(pin@),
            r.le is None,
    {
        let mut padded: Vec<u8> = Vec::new();
        let mut i: usize = 0;
        while i < 8
            invariant
                i <= 8,
                padded@.len() == i,
                forall|j: int| 0 <= j < i ==> padded@[j] == pin_block(pin@)[j],
            decreases 8 - i,
        {
            if i < pin.len() {
                padded.push(pin[i]);
            } else {
                padded.push(0xFF);
            }
            i = i + 1;
        }
        assert(padded@ =~= pin_block(pin@));
        Apdu { cla: 0x00, ins: INS_VERIFY, p1: 0x00, p2: 0x80, data: padded, le: None }
    }

    /// The short-form encoding. `Lc` is the data length as one byte.
    pub fn to_bytes(&self) -> (r: Vec<u8>)
        ensures
            r@ == self.spec_bytes(),
    {
        let mut buf: Vec<u8> = Vec::new();
        buf.push(self.cla);
        buf.push(self.ins);
        buf.push(self.p1);
        buf.push(self.p2);
        let ghost head = buf@;
        if self.data.len() > 0 {
            buf.push(self.data.len() as u8);
            let mut i: usize = 0;
            while i < self.data.len()
                invariant
                    i <= self.data@.len(),
                    buf@ == head + seq![self.data@.len() as u8] + self.data@.subrange(0, i as int),
                decreases self.data@.len() - i,
            {
                buf.push(self.data[i]);
                i = i + 1;
                assert(self.data@.subrange(0, i as int) =~= self.data@.subrange(0, i - 1) + seq![
                    self.data@[i - 1],
                ]);
                assert(buf@ =~= head + seq![self.data@.len() as u8] + self.data@.subrange(
                    0,
                    i as int,
                ));
            }
            assert(self.data@.subrange(0, i as int) =~= self.data@);
        }
        let ghost mid = buf@;
        match self.le {
            Some(le) => {
                if le >= 256 {
                    buf.push(0x00);
                } else {
                    buf.push(le as u8);
                }
            },
            None => {},
        }
        assert(buf@ =~= self.spec_bytes());
        buf
    }
}

/// Status word of a card response (SW1, SW2).
#[derive(Debug, Clone, Copy, PartialEq, Eq, Structural)]
pub struct StatusWord(pub u8, pub u8);

impl StatusWord {
    /// The status word as one 16-bit number.
    pub open spec fn spec_u16(&self) -> u16 {
        (self.0 as int * 0x100 + self.1 as int) as u16
    }

    pub open spec fn spec_is_pin_incorrect(&self) -> bool {
        self.0 == 0x63 && self.1 & 0xF0 == 0xC0
    }

    pub fn from_bytes(sw1: u8, sw2: u8) -> (r: Self)
        ensures
            r == StatusWord(sw1, sw2),
    {
        StatusWord(sw1, sw2)
    }

    /// The status word as `0x` and four upper-case hex digits.
    pub fn to_hex_string(&self) -> (r: String)
        ensures
            r@ == "0x"@ + upper_hex(seq![self.0, self.1]),
    {
        let bytes: [u8; 2] = [self.0, self.1];
        assert(bytes@ =~= seq![self.0, self.1]);
        let digits = encode_hex_upper(bytes.as_slice());
        let mut r = "0x".to_owned();
        r.append(digits.as_str());
        r
    }

    /// `90 00`.
    pub fn is_success(&self) -> (r: bool)
        ensures
            r == (self.0 == 0x90 && self.1 == 0x00),
    {
        self.0 == 0x90 && self.1 == 0x00
    }

    pub fn as_u16(&self) -> (r: u16)
        ensures
            r == self.spec_u16(),
            r as int == self.0 as int * 0x100 + self.1 as int,
    {
        self.0 as u16 * 0x100 + self.1 as u16
    }

    /// `61 xx`: more response data is waiting.
    pub fn has_more_data(&self) -> (r: bool)
        ensures
            r == (self.0 == 0x61),
    {
        self.0 == 0x61
    }

    /// The number of waiting bytes when `has_more_data` holds.
    pub fn remaining_bytes(&self) -> (r: u8)
        ensures
            r == self.1,
    {
        self.1
    }

    /// `63 Cx`: wrong PIN, `x` retries left.
    pub fn is_pin_incorrect(&self) -> (r: bool)
        ensures
            r == self.spec_is_pin_incorrect(),
    {
        self.0 == 0x63 && (self.1 & 0xF0) == 0xC0
    }

    /// The retries left when the PIN was wrong, else `None`.
    pub fn pin_retries_remaining(&self) -> (r: Option<u8>)
        ensures
            r == (if self.spec_is_pin_incorrect() {
                Some(self.1 & 0x0F)
            } else {
                None
            }),
    {
        if self.is_pin_incorrect() {
            Some(self.1 & 0x0F)
        } else {
            None
        }
    }
}

/// Re-reading the encoding of a command recovers its header fields, `Lc` and
/// data when the data is non-empty and fits a short APDU, and the `Le` byte,
/// with `Le = 256` as `0x00`.
pub proof fn lemma_apdu_fields_read_back(
    cla: u8,
    ins: u8,
    p1: u8,
    p2: u8,
    data: Seq<u8>,
    le: Option<u16>,
)
    ensures
        ({
            let b = apdu_encoding(cla, ins, p1, p2, data, le);
            &&& b[0] == cla && b[1] == ins && b[2] == p1 && b[3] == p2
            &&& 0 < data.len() < 256 ==> b[4] as int == data.len() && b.subrange(5, 5 + data.len() as int)
                == data
            &&& le is None ==> b.len() == 4 + (if data.len() > 0 {
                1 + data.len()
            } else {
                0
            })
            &&& le is Some ==> b.len() == 5 + (if data.len() > 0 {
                1 + data.len()
            } else {
                0
            }) && b[b.len() - 1] == le_byte(le->0)
            &&& le == Some(256u16) ==> b[b.len() - 1] == 0
        }),
{
    let b = apdu_encoding(cla, ins, p1, p2, data, le);
    if 0 < data.len() < 256 {
        assert(b.subrange(5, 5 + data.len() as int) =~= data);
    }
}

} // verus!
