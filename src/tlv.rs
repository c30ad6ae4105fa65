use crate::error::{tlv_error, PivError};
use vstd::prelude::*;

verus! {

/// The minimal big-endian bytes of a tag: leading zero bytes are stripped,
/// and the tag `0` is one zero byte.
pub open spec fn tag_bytes(tag: u32) -> Seq<u8> {
    if tag < 0x100 {
        seq![tag as u8]
    } else if tag < 0x1_0000 {
        seq![(tag / 0x100) as u8, (tag % 0x100) as u8]
    } else if tag < 0x100_0000 {
        seq![(tag / 0x1_0000) as u8, ((tag / 0x100) % 0x100) as u8, (tag % 0x100) as u8]
    } else {
        seq![
            (tag / 0x100_0000) as u8,
            ((tag / 0x1_0000) % 0x100) as u8,
            ((tag / 0x100) % 0x100) as u8,
            (tag % 0x100) as u8,
        ]
    }
}

/// The BER length field for a value of `len` bytes (`len < 2^24`).
pub open spec fn length_bytes(len: nat) -> Seq<u8> {
    if len < 0x80 {
        seq![len as u8]
    } else if len < 0x100 {
        seq![0x81u8, len as u8]
    } else if len < 0x1_0000 {
        seq![0x82u8, (len / 0x100) as u8, (len % 0x100) as u8]
    } else {
        seq![0x83u8, (len / 0x1_0000) as u8, ((len / 0x100) % 0x100) as u8, (len % 0x100) as u8]
    }
}

/// The bytes that the writer appends for one tag and value.
pub open spec fn tlv_encoding(tag: u32, value: Seq<u8>) -> Seq<u8> {
    tag_bytes(tag) + length_bytes(value.len()) + value
}

/// A tag whose minimal bytes read back as the same tag: one byte whose low
/// five bits are not all set, or a first byte with the low five bits all set,
/// continuation bytes with bit 7 set and a last byte with bit 7 clear.
pub open spec fn is_ber_tag(tag: u32) -> bool {
    let b = tag_bytes(tag);
    if b.len() == 1 {
        b[0] & 0x1F != 0x1F
    } else {
        &&& b[0] & 0x1F == 0x1F
        &&& forall|i: int| 1 <= i < b.len() - 1 ==> b[i] & 0x80 != 0
        &&& b[b.len() - 1] & 0x80 == 0
    }
}

/// Drop the top byte of `acc` and append `b` as the new low byte.
pub open spec fn shift_in(acc: u32, b: u8) -> u32 {
    ((acc as int % 0x100_0000) * 0x100 + b as int) as u32
}

/// The continuation bytes of a multi-byte tag from `pos` on, accumulated onto
/// `acc`: the tag and the position after it, or `None` past the end.
pub open spec fn tag_tail(d: Seq<u8>, pos: int, acc: u32) -> Option<(u32, int)>
    decreases d.len() - pos,
{
    if 0 <= pos < d.len() {
        let next = shift_in(acc, d[pos]);
        if d[pos] & 0x80 == 0 {
            Some((next, pos + 1))
        } else {
            tag_tail(d, pos + 1, next)
        }
    } else {
        None
    }
}

/// The tag that starts at `pos`, and the position after it.
pub open spec fn tag_at(d: Seq<u8>, pos: int) -> Option<(u32, int)> {
    if 0 <= pos < d.len() {
        if d[pos] & 0x1F != 0x1F {
            Some((d[pos] as u32, pos + 1))
        } else {
            tag_tail(d, pos + 1, d[pos] as u32)
        }
    } else {
        None
    }
}

/// The big-endian number held in one to three bytes.
pub open spec fn long_length(s: Seq<u8>) -> int {
    if s.len() == 1 {
        s[0] as int
    } else if s.len() == 2 {
        s[0] as int * 0x100 + s[1] as int
    } else {
        s[0] as int * 0x1_0000 + s[1] as int * 0x100 + s[2] as int
    }
}

/// The length field that starts at `pos`, and the position after it.
pub open spec fn length_at(d: Seq<u8>, pos: int) -> Option<(int, int)> {
    if 0 <= pos < d.len() {
        let first = d[pos];
        if first < 0x80 {
            Some((first as int, pos + 1))
        } else {
            let n = first as int - 0x80;
            if n == 0 || n > 3 || pos + 1 + n > d.len() {
                None
            } else {
                Some((long_length(d.subrange(pos + 1, pos + 1 + n)), pos + 1 + n))
            }
        }
    } else {
        None
    }
}

/// The length-prefixed value that starts at `pos`, and the position after it.
pub open spec fn value_at(d: Seq<u8>, pos: int) -> Option<(Seq<u8>, int)> {
    match length_at(d, pos) {
        Some((len, p)) => if p + len <= d.len() {
            Some((d.subrange(p, p + len), p + len))
        } else {
            None
        },
        None => None,
    }
}

/// A result that failed with a TLV error.
pub open spec fn is_tlv_err<T>(r: Result<T, PivError>) -> bool {
    r is Err && r->Err_0 is Tlv
}

/// BER-TLV reader over a byte slice, with a cursor.
pub struct TlvReader<'a> {
    data: &'a [u8],
    pos: usize,
}

impl<'a> TlvReader<'a> {
    /// The bytes under the reader.
    pub closed spec fn bytes(&self) -> Seq<u8> {
        self.data@
    }

    /// The cursor: the index of the next byte to read.
    pub closed spec fn position(&self) -> int {
        self.pos as int
    }

    /// The cursor stands within the bytes or just past them.
    pub closed spec fn wf(&self) -> bool {
        self.pos <= self.data@.len()
    }

    /// A well-formed reader's cursor lies within its bytes or just past them.
    pub proof fn lemma_cursor(&self)
        requires
            self.wf(),
        ensures
            0 <= self.position() <= self.bytes().len(),
    {
    }

    pub fn new(data: &'a [u8]) -> (r: Self)
        ensures
            r.wf(),
            r.bytes() == data@,
            r.position() == 0,
    {
        TlvReader { data, pos: 0 }
    }

    /// Read a tag. A first byte whose low five bits are all set is followed by
    /// continuation bytes, each shifted in as the new low byte, up to the first
    /// one with bit 7 clear. On failure the cursor does not move.
    pub fn read_tag(&mut self) -> (r: Result<u32, PivError>)
        requires
            old(self).wf(),
        ensures
            final(self).wf(),
            final(self).bytes() == old(self).bytes(),
            match tag_at(old(self).bytes(), old(self).position()) {
                Some((tag, p)) => r == Ok::<u32, PivError>(tag) && final(self).position() == p,
                None => is_tlv_err(r) && final(self).position() == old(self).position(),
            },
    {
        let len = self.data.len();
        if self.pos >= len {
            return Err(tlv_error("tag read past the end of the data"));
        }
        let first = self.data[self.pos];
        if first & 0x1F != 0x1F {
            self.pos = self.pos + 1;
            return Ok(first as u32);
        }
        let ghost d = self.data@;
        let mut p: usize = self.pos + 1;
        let mut tag: u32 = first as u32;
        loop
            invariant
                *self == *old(self),
                self.pos < len,
                len == d.len(),
                self.data@ == d,
                self.pos < p <= len,
                tag_tail(d, p as int, tag) == tag_at(d, self.pos as int),
            decreases len - p,
        {
            if p >= len {
                return Err(tlv_error("multi-byte tag continues past the end of the data"));
            }
            let b = self.data[p];
            tag = (tag % 0x100_0000) * 0x100 + b as u32;
            p = p + 1;
            if b & 0x80 == 0 {
                self.pos = p;
                return Ok(tag);
            }
        }
    }

    /// Read a length field: one byte below 0x80 is the length itself;
    /// `0x80 | n` with `1 <= n <= 3` is followed by `n` big-endian bytes.
    fn read_length(&mut self) -> (r: Result<usize, PivError>)
        requires
            old(self).wf(),
        ensures
            final(self).wf(),
            final(self).bytes() == old(self).bytes(),
            match length_at(old(self).bytes(), old(self).position()) {
                Some((len, p)) => r == Ok::<usize, PivError>(len as usize) && final(self).position()
                    == p,
                None => is_tlv_err(r) && final(self).position() == old(self).position(),
            },
    {
        let len = self.data.len();
        if self.pos >= len {
            return Err(tlv_error("length read past the end of the data"));
        }
        let first = self.data[self.pos];
        if first < 0x80 {
            self.pos = self.pos + 1;
            return Ok(first as usize);
        }
        let n = (first - 0x80) as usize;
        if n == 0 || n > 3 {
            return Err(tlv_error("invalid length indicator"));
        }
        if n > len - self.pos - 1 {
            return Err(tlv_error("length bytes exceed the remaining data"));
        }
        let p = self.pos + 1;
        let value: usize = if n == 1 {
            self.data[p] as usize
        } else if n == 2 {
            self.data[p] as usize * 0x100 + self.data[p + 1] as usize
        } else {
            self.data[p] as usize * 0x1_0000 + self.data[p + 1] as usize * 0x100 + self.data[p
                + 2] as usize
        };
        proof {
            let s = self.data@.subrange(p as int, p + n);
            assert(s.len() == n);
            assert(s[0] == self.data@[p as int]);
            if n >= 2 {
                assert(s[1] == self.data@[p + 1]);
            }
            if n == 3 {
                assert(s[2] == self.data@[p + 2]);
            }
        }
        self.pos = p + n;
        Ok(value)
    }

    /// Read a length field and return the value bytes that follow it.
    /// On failure the cursor does not move.
    pub fn read_value(&mut self) -> (r: Result<&'a [u8], PivError>)
        requires
            old(self).wf(),
        ensures
            final(self).wf(),
            final(self).bytes() == old(self).bytes(),
            match value_at(old(self).bytes(), old(self).position()) {
                Some((v, p)) => r is Ok && r->Ok_0@ == v && final(self).position() == p,
                None => is_tlv_err(r) && final(self).position() == old(self).position(),
            },
    {
        let start = self.pos;
        let len = match self.read_length() {
            Ok(len) => len,
            Err(e) => return Err(e),
        };
        if len > self.data.len() - self.pos {
            self.pos = start;
            return Err(tlv_error("value length exceeds the remaining data"));
        }
        let value = &self.data[self.pos..self.pos + len];
        self.pos = self.pos + len;
        Ok(value)
    }

    /// The number of bytes after the cursor.
    pub fn remaining(&self) -> (r: usize)
        requires
            self.wf(),
        ensures
            r == self.bytes().len() - self.position(),
    {
        self.data.len() - self.pos
    }

    /// Whether any byte is left after the cursor.
    pub fn has_remaining(&self) -> (r: bool)
        requires
            self.wf(),
        ensures
            r == (self.position() < self.bytes().len()),
    {
        self.pos < self.data.len()
    }
}

/// The minimal big-endian bytes of a tag.
pub fn tag_to_bytes(tag: u32) -> (r: Vec<u8>)
    ensures
        r@ == tag_bytes(tag),
{
    let mut r: Vec<u8> = Vec::new();
    if tag >= 0x100_0000 {
        r.push((tag / 0x100_0000) as u8);
    }
    if tag >= 0x1_0000 {
        r.push(((tag / 0x1_0000) % 0x100) as u8);
    }
    if tag >= 0x100 {
        r.push(((tag / 0x100) % 0x100) as u8);
    }
    r.push((tag % 0x100) as u8);
    proof {
        if tag < 0x100 {
            assert(r@ =~= tag_bytes(tag));
        } else if tag < 0x1_0000 {
            assert(r@ =~= tag_bytes(tag));
        } else if tag < 0x100_0000 {
            assert(r@ =~= tag_bytes(tag));
        } else {
            assert(r@ =~= tag_bytes(tag));
        }
    }
    r
}

/// Append every byte of `s` to `buf`.
fn push_all(buf: &mut Vec<u8>, s: &[u8])
    ensures
        final(buf)@ == old(buf)@ + s@,
{
    let mut i: usize = 0;
    while i < s.len()
        invariant
            0 <= i <= s@.len(),
            buf@ == old(buf)@ + s@.subrange(0, i as int),
        decreases s@.len() - i,
    {
        buf.push(s[i]);
        i = i + 1;
        assert(s@.subrange(0, i as int) =~= s@.subrange(0, i - 1) + seq![s@[i - 1]]);
        assert(buf@ =~= old(buf)@ + s@.subrange(0, i as int));
    }
    assert(s@.subrange(0, i as int) =~= s@);
}

/// BER-TLV writer: appends tag, length and value to a growing buffer.
pub struct TlvWriter {
    buf: Vec<u8>,
}

impl View for TlvWriter {
    type V = Seq<u8>;

    closed spec fn view(&self) -> Seq<u8> {
        self.buf@
    }
}

impl TlvWriter {
    pub fn new() -> (r: Self)
        ensures
            r@ == Seq::<u8>::empty(),
    {
        TlvWriter { buf: Vec::new() }
    }

    /// Append the tag, the length of `value` and `value`.
    pub fn write_tag_value(&mut self, tag: u32, value: &[u8])
        requires
            value@.len() < 0x100_0000,
        ensures
            final(self)@ == old(self)@ + tlv_encoding(tag, value@),
    {
        self.write_tag(tag);
        self.write_length(value.len());
        push_all(&mut self.buf, value);
        assert(self@ =~= old(self)@ + tlv_encoding(tag, value@));
    }

    fn write_tag(&mut self, tag: u32)
        ensures
            final(self)@ == old(self)@ + tag_bytes(tag),
    {
        let bytes = tag_to_bytes(tag);
        push_all(&mut self.buf, bytes.as_slice());
    }

    fn write_length(&mut self, len: usize)
        requires
            len < 0x100_0000,
        ensures
            final(self)@ == old(self)@ + length_bytes(len as nat),
    {
        if len < 0x80 {
            self.buf.push(len as u8);
        } else if len < 0x100 {
            self.buf.push(0x81);
            self.buf.push(len as u8);
        } else if len < 0x1_0000 {
            self.buf.push(0x82);
            self.buf.push((len / 0x100) as u8);
            self.buf.push((len % 0x100) as u8);
        } else {
            self.buf.push(0x83);
            self.buf.push((len / 0x1_0000) as u8);
            self.buf.push(((len / 0x100) % 0x100) as u8);
            self.buf.push((len % 0x100) as u8);
        }
        assert(self@ =~= old(self)@ + length_bytes(len as nat));
    }

    /// The bytes written so far.
    pub fn as_bytes(&self) -> (r: &[u8])
        ensures
            r@ == self@,
    {
        self.buf.as_slice()
    }

    /// The bytes written so far, as an owned buffer.
    pub fn into_vec(self) -> (r: Vec<u8>)
        ensures
            r@ == self@,
    {
        self.buf
    }
}

impl Default for TlvWriter {
    fn default() -> (r: Self)
        ensures
            r@ == Seq::<u8>::empty(),
    {
        TlvWriter::new()
    }
}

#[verifier::rlimit(40)]
proof fn lemma_tag_read_back(tag: u32, d: Seq<u8>)
    requires
        is_ber_tag(tag),
        d.len() >= tag_bytes(tag).len(),
        d.subrange(0, tag_bytes(tag).len() as int) == tag_bytes(tag),
    ensures
        tag_at(d, 0) == Some((tag, tag_bytes(tag).len() as int)),
{
    let b = tag_bytes(tag);
    let n = b.len() as int;
    assert forall|i: int| 0 <= i < n implies d[i] == b[i] by {
        assert(d.subrange(0, n)[i] == d[i]);
    }
    if n == 1 {
        assert(d[0] as u32 == tag);
    } else if n == 2 {
        let t0 = shift_in(d[0] as u32, d[1]);
        assert(t0 == tag);
        assert(tag_tail(d, 1, d[0] as u32) == Some((t0, 2int)));
    } else if n == 3 {
        assert(b[1] & 0x80 != 0);
        let t0 = shift_in(d[0] as u32, d[1]);
        let t1 = shift_in(t0, d[2]);
        assert(t0 == tag / 0x100);
        assert(t1 == tag);
        assert(tag_tail(d, 2, t0) == Some((t1, 3int)));
        assert(tag_tail(d, 1, d[0] as u32) == tag_tail(d, 2, t0));
    } else {
        assert(b[1] & 0x80 != 0);
        assert(b[2] & 0x80 != 0);
        let t0 = shift_in(d[0] as u32, d[1]);
        let t1 = shift_in(t0, d[2]);
        let t2 = shift_in(t1, d[3]);
        assert(t0 == tag / 0x1_0000);
        assert(t1 == tag / 0x100);
        assert(t2 == tag);
        assert(tag_tail(d, 3, t1) == Some((t2, 4int)));
        assert(tag_tail(d, 2, t0) == tag_tail(d, 3, t1));
        assert(tag_tail(d, 1, d[0] as u32) == tag_tail(d, 2, t0));
    }
}

proof fn lemma_length_read_back(len: nat, d: Seq<u8>, pos: int)
    requires
        len < 0x100_0000,
        0 <= pos,
        d.len() >= pos + length_bytes(len).len(),
        d.subrange(pos, pos + length_bytes(len).len()) == length_bytes(len),
    ensures
        length_at(d, pos) == Some((len as int, pos + length_bytes(len).len())),
{
    let b = length_bytes(len);
    let n = b.len() as int;
    assert forall|i: int| 0 <= i < n implies d[pos + i] == b[i] by {
        assert(d.subrange(pos, pos + n)[i] == d[pos + i]);
    }
    if n > 1 {
        let s = d.subrange(pos + 1, pos + n);
        assert forall|i: int| 0 <= i < n - 1 implies s[i] == b[i + 1] by {
            assert(d[pos + 1 + i] == b[1 + i]);
        }
        assert(d[pos] >= 0x80);
        if n == 2 {
            assert(long_length(s) == len);
        } else if n == 3 {
            assert(long_length(s) == (len / 0x100) * 0x100 + len % 0x100);
        } else {
            assert(long_length(s) == (len / 0x1_0000) * 0x1_0000 + ((len / 0x100) % 0x100) * 0x100
                + len % 0x100);
        }
    } else {
        assert(d[pos + 0] == b[0]);
        assert(d[pos] as int == len);
    }
}

/// Reading back what the writer produced for one tag and value, followed by
/// any bytes, yields the same tag and then the same value, for every tag whose
/// minimal bytes form a BER tag.
pub proof fn lemma_tlv_round_trip(tag: u32, value: Seq<u8>, rest: Seq<u8>)
    requires
        is_ber_tag(tag),
        value.len() < 0x100_0000,
    ensures
        ({
            let d = tlv_encoding(tag, value) + rest;
            let t = tag_bytes(tag).len() as int;
            &&& tag_at(d, 0) == Some((tag, t))
            &&& value_at(d, t) == Some((value, tlv_encoding(tag, value).len() as int))
        }),
{
    let d = tlv_encoding(tag, value) + rest;
    let t = tag_bytes(tag).len() as int;
    let l = length_bytes(value.len()).len() as int;
    assert(d.subrange(0, t) =~= tag_bytes(tag));
    lemma_tag_read_back(tag, d);
    assert(d.subrange(t, t + l) =~= length_bytes(value.len()));
    lemma_length_read_back(value.len(), d, t);
    assert(d.subrange(t + l, t + l + value.len()) =~= value);
}

proof fn lemma_tag_tail_advances(d: Seq<u8>, pos: int, acc: u32)
    ensures
        tag_tail(d, pos, acc) matches Some((_, p)) ==> pos < p <= d.len(),
    decreases d.len() - pos,
{
    if 0 <= pos < d.len() && d[pos] & 0x80 != 0 {
        lemma_tag_tail_advances(d, pos + 1, shift_in(acc, d[pos]));
    }
}

/// Reading a tag and then a value moves strictly forward within the bytes.
pub proof fn lemma_tlv_advances(d: Seq<u8>, pos: int)
    ensures
        tag_at(d, pos) matches Some((_, p)) ==> pos < p <= d.len(),
        value_at(d, pos) matches Some((_, q)) ==> pos < q <= d.len(),
{
    if 0 <= pos < d.len() && d[pos] & 0x1F == 0x1F {
        lemma_tag_tail_advances(d, pos + 1, d[pos] as u32);
    }
}

/// Scan the TLV items from `pos` to the end of `d`, keeping the value of the
/// last one with `tag` (`found` holds the value kept so far). `None` if an
/// item is malformed.
pub open spec fn scan_last(d: Seq<u8>, pos: int, tag: u32, found: Option<Seq<u8>>) -> Option<
    Option<Seq<u8>>,
>
    decreases d.len() - pos,
{
    if pos < 0 || pos >= d.len() {
        Some(found)
    } else {
        match tag_at(d, pos) {
            None => None,
            Some((t, p)) => match value_at(d, p) {
                None => None,
                Some((v, q)) => if q <= pos {
                    None
                } else if t == tag {
                    scan_last(d, q, tag, Some(v))
                } else {
                    scan_last(d, q, tag, found)
                },
            },
        }
    }
}

/// Scan the TLV items from `pos` on and stop at the first one with `tag`:
/// `Some(Some(value))` for it, `Some(None)` if the bytes end first, `None` if
/// an item before it is malformed.
pub open spec fn scan_first(d: Seq<u8>, pos: int, tag: u32) -> Option<Option<Seq<u8>>>
    decreases d.len() - pos,
{
    if pos < 0 || pos >= d.len() {
        Some(None)
    } else {
        match tag_at(d, pos) {
            None => None,
            Some((t, p)) => match value_at(d, p) {
                None => None,
                Some((v, q)) => if t == tag {
                    Some(Some(v))
                } else if q <= pos {
                    None
                } else {
                    scan_first(d, q, tag)
                },
            },
        }
    }
}

/// The reader rejects empty input, a read past the end, a long-form length
/// indicator of 0 or more than 3 bytes, a truncated length field, and a value
/// longer than the bytes that remain.
pub proof fn lemma_tlv_rejects(d: Seq<u8>, pos: int)
    ensures
        tag_at(Seq::<u8>::empty(), 0) is None,
        pos >= d.len() ==> tag_at(d, pos) is None && length_at(d, pos) is None,
        0 <= pos < d.len() && (d[pos] == 0x80 || d[pos] > 0x83) ==> length_at(d, pos) is None,
        0 <= pos < d.len() && 0x81 <= d[pos] <= 0x83 && pos + 1 + (d[pos] - 0x80) > d.len()
            ==> length_at(d, pos) is None,
        length_at(d, pos) matches Some((len, p)) && p + len > d.len() ==> value_at(d, pos) is None,
{
}

} // verus!
