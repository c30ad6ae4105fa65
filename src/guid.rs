use crate::error::PivError;
use vstd::prelude::*;
use vstd::slice::slice_subrange;
use vstd::string::StringExecFns;

verus! {

#[verifier::external_type_specification]
#[verifier::external_body]
pub struct ExFromHexError(hex::FromHexError);

/// The character of a hex digit value, upper case.
pub open spec fn upper_digit(n: int) -> char {
    seq!['0', '1', '2', '3', '4', '5', '6', '7', '8', '9', 'A', 'B', 'C', 'D', 'E', 'F'][n]
}

/// Whether `c` is a hex digit, in either case.
pub open spec fn is_hex_digit(c: char) -> bool {
    ('0' <= c <= '9') || ('A' <= c <= 'F') || ('a' <= c <= 'f')
}

/// The value of a hex digit.
pub open spec fn hex_value(c: char) -> int {
    if '0' <= c <= '9' {
        c as int - '0' as int
    } else if 'A' <= c <= 'F' {
        c as int - 'A' as int + 10
    } else {
        c as int - 'a' as int + 10
    }
}

/// Text that decodes as hex: an even number of hex digits.
pub open spec fn is_hex_text(s: Seq<char>) -> bool {
    s.len() % 2 == 0 && forall|i: int| 0 <= i < s.len() ==> is_hex_digit(#[trigger] s[i])
}

/// The bytes of hex text, two digits per byte, high digit first.
pub open spec fn hex_decoded(s: Seq<char>) -> Seq<u8> {
    Seq::new(s.len() / 2, |i: int| (hex_value(s[2 * i]) * 16 + hex_value(s[2 * i + 1])) as u8)
}

/// Upper-case hex text of bytes, two digits per byte, high digit first.
pub open spec fn upper_hex(b: Seq<u8>) -> Seq<char> {
    Seq::new(
        2 * b.len(),
        |i: int|
            if i % 2 == 0 {
                upper_digit(b[i / 2] as int / 16)
            } else {
                upper_digit(b[i / 2] as int % 16)
            },
    )
}

/// Relies on hex::decode: it accepts exactly an even number of hex digits of
/// either case, and yields one byte per pair, high digit first.
#[verifier::external_body]
fn decode_hex(s: &str) -> (r: Result<Vec<u8>, hex::FromHexError>)
    ensures
        r is Ok <==> is_hex_text(s@),
        r is Ok ==> r->Ok_0@ == hex_decoded(s@),
{
    hex::decode(s)
}

/// Relies on hex::encode_upper: two upper-case digits per byte, high digit first.
#[verifier::external_body]
pub(crate) fn encode_hex_upper(b: &[u8]) -> (r: String)
    ensures
        r@ == upper_hex(b@),
{
    hex::encode_upper(b)
}

/// A card's 16-byte identifier.
#[derive(Debug, Clone, Copy, Hash)]
pub struct Guid([u8; 16]);

impl View for Guid {
    type V = Seq<u8>;

    closed spec fn view(&self) -> Seq<u8> {
        self.0@
    }
}

impl PartialEq for Guid {
    fn eq(&self, other: &Guid) -> (r: bool)
        ensures
            r == (self@ == other@),
    {
        let mut i: usize = 0;
        while i < 16
            invariant
                i <= 16,
                self.0@.len() == 16 && other.0@.len() == 16,
                forall|j: int| 0 <= j < i ==> self.0@[j] == other.0@[j],
            decreases 16 - i,
        {
            if self.0[i] != other.0[i] {
                return false;
            }
            i = i + 1;
        }
        assert(self.0@ =~= other.0@);
        true
    }
}

impl vstd::std_specs::cmp::PartialEqSpecImpl for Guid {
    open spec fn obeys_eq_spec() -> bool {
        true
    }

    open spec fn eq_spec(&self, other: &Guid) -> bool {
        self@ == other@
    }
}

impl Eq for Guid {

}

impl Guid {
    /// The view is always 16 bytes long.
    pub proof fn lemma_len(&self)
        ensures
            self@.len() == 16,
    {
    }

    /// Parse a GUID from hex text of either case; it must decode to exactly
    /// 16 bytes.
    pub fn from_hex(s: &str) -> (r: Result<Guid, PivError>)
        ensures
            r is Ok <==> (is_hex_text(s@) && s@.len() == 32),
            r is Ok ==> r->Ok_0@ == hex_decoded(s@),
            r is Err ==> r->Err_0 is InvalidGuid,
    {
        match decode_hex(s) {
            Ok(bytes) => Guid::from_bytes(bytes.as_slice()),
            Err(_) => Err(PivError::InvalidGuid("not an even number of hex digits".to_owned())),
        }
    }

    /// A GUID from exactly 16 bytes.
    pub fn from_bytes(bytes: &[u8]) -> (r: Result<Guid, PivError>)
        ensures
            r is Ok <==> bytes@.len() == 16,
            r is Ok ==> r->Ok_0@ == bytes@,
            r is Err ==> r->Err_0 is InvalidGuid,
    {
        if bytes.len() != 16 {
            return Err(PivError::InvalidGuid("expected 16 bytes".to_owned()));
        }
        let arr: [u8; 16] = [
            bytes[0],
            bytes[1],
            bytes[2],
            bytes[3],
            bytes[4],
            bytes[5],
            bytes[6],
            bytes[7],
            bytes[8],
            bytes[9],
            bytes[10],
            bytes[11],
            bytes[12],
            bytes[13],
            bytes[14],
            bytes[15],
        ];
        assert(arr@ =~= bytes@);
        Ok(Guid(arr))
    }

    pub fn as_bytes(&self) -> (r: &[u8; 16])
        ensures
            r@ == self@,
    {
        &self.0
    }

    /// Upper-case hex of all 16 bytes.
    pub fn to_hex(&self) -> (r: String)
        ensures
            r@ == upper_hex(self@),
    {
        encode_hex_upper(self.0.as_slice())
    }

    /// The display form: the short ID.
    pub fn display_string(&self) -> (r: String)
        ensures
            r@ == upper_hex(self@.subrange(0, 4)),
    {
        self.short_id()
    }

    /// The debug form: `Guid(<hex of all 16 bytes>)`.
    pub fn debug_string(&self) -> (r: String)
        ensures
            r@ == "Guid("@ + upper_hex(self@) + ")"@,
    {
        let mut r = "Guid(".to_owned();
        let hex = self.to_hex();
        r.append(hex.as_str());
        r.append(")");
        r
    }

    /// Upper-case hex of the first 4 bytes.
    pub fn short_id(&self) -> (r: String)
        ensures
            r@ == upper_hex(self@.subrange(0, 4)),
    {
        encode_hex_upper(slice_subrange(self.0.as_slice(), 0, 4))
    }
}

proof fn lemma_upper_digit(n: int)
    requires
        0 <= n < 16,
    ensures
        is_hex_digit(upper_digit(n)),
        hex_value(upper_digit(n)) == n,
{
    let t = seq!['0', '1', '2', '3', '4', '5', '6', '7', '8', '9', 'A', 'B', 'C', 'D', 'E', 'F'];
    assert(upper_digit(n) == t[n]);
}

/// Upper-case hex of any bytes is hex text that decodes back to the bytes.
pub proof fn lemma_hex_round_trip(b: Seq<u8>)
    ensures
        is_hex_text(upper_hex(b)),
        upper_hex(b).len() == 2 * b.len(),
        hex_decoded(upper_hex(b)) == b,
{
    let h = upper_hex(b);
    assert forall|i: int| 0 <= i < h.len() implies is_hex_digit(#[trigger] h[i]) by {
        if i % 2 == 0 {
            lemma_upper_digit(b[i / 2] as int / 16);
        } else {
            lemma_upper_digit(b[i / 2] as int % 16);
        }
    }
    assert forall|i: int| 0 <= i < b.len() implies #[trigger] hex_decoded(h)[i] == b[i] by {
        lemma_upper_digit(b[i] as int / 16);
        lemma_upper_digit(b[i] as int % 16);
        assert((2 * i) / 2 == i);
        assert((2 * i + 1) / 2 == i);
        assert(h[2 * i] == upper_digit(b[i] as int / 16));
        assert(h[2 * i + 1] == upper_digit(b[i] as int % 16));
    }
    assert(hex_decoded(h) =~= b);
}

/// A GUID's hex text parses back to the same GUID.
pub proof fn lemma_guid_hex_round_trip(g: Guid)
    ensures
        is_hex_text(upper_hex(g@)),
        upper_hex(g@).len() == 32,
        hex_decoded(upper_hex(g@)) == g@,
{
    g.lemma_len();
    lemma_hex_round_trip(g@);
}

} // verus!
