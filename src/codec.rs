//! Length-prefixed big-endian encoding of integers and byte vectors, and a
//! cursor that reads them back.
use vstd::prelude::*;

verus! {

/// Failures of the binary codec.
#[derive(Debug, Clone, Copy, PartialEq, Eq, Structural)]
pub enum CodecError {
    /// Fewer bytes remain than a field or a declared length requires.
    TruncatedInput,
    /// A value that no enumeration or extension body admits.
    Malformed,
    /// A vector too long for its length prefix.
    LengthOverflow,
}

/// Largest length that a two-byte prefix can announce.
pub const MAX_VEC16: usize = 65535;

pub open spec fn u16_be(v: u16) -> Seq<u8> {
    seq![(v >> 8u16) as u8, v as u8]
}

pub open spec fn u16_from(b0: u8, b1: u8) -> u16 {
    ((b0 as u16) << 8u16) | (b1 as u16)
}

pub open spec fn u64_be(v: u64) -> Seq<u8> {
    seq![
        (v >> 56u64) as u8,
        (v >> 48u64) as u8,
        (v >> 40u64) as u8,
        (v >> 32u64) as u8,
        (v >> 24u64) as u8,
        (v >> 16u64) as u8,
        (v >> 8u64) as u8,
        v as u8,
    ]
}

pub open spec fn u64_from(s: Seq<u8>, p: int) -> u64 {
    ((s[p] as u64) << 56u64) | ((s[p + 1] as u64) << 48u64) | ((s[p + 2] as u64) << 40u64) | ((
    s[p + 3] as u64) << 32u64) | ((s[p + 4] as u64) << 24u64) | ((s[p + 5] as u64) << 16u64) | ((
    s[p + 6] as u64) << 8u64) | (s[p + 7] as u64)
}

/// A byte vector behind a two-byte length prefix.
pub open spec fn vec16_bytes(b: Seq<u8>) -> Seq<u8> {
    u16_be(b.len() as u16) + b
}

/// Reading a field of `s` at position `p`, never past `end`, gives the value
/// and the position after it.
pub open spec fn parse_u8(s: Seq<u8>, p: int, end: int) -> Result<(u8, int), CodecError> {
    if p + 1 <= end {
        Ok((s[p], p + 1))
    } else {
        Err(CodecError::TruncatedInput)
    }
}

pub open spec fn parse_u16(s: Seq<u8>, p: int, end: int) -> Result<(u16, int), CodecError> {
    if p + 2 <= end {
        Ok((u16_from(s[p], s[p + 1]), p + 2))
    } else {
        Err(CodecError::TruncatedInput)
    }
}

pub open spec fn parse_u64(s: Seq<u8>, p: int, end: int) -> Result<(u64, int), CodecError> {
    if p + 8 <= end {
        Ok((u64_from(s, p), p + 8))
    } else {
        Err(CodecError::TruncatedInput)
    }
}

pub open spec fn parse_vec16(s: Seq<u8>, p: int, end: int) -> Result<(Seq<u8>, int), CodecError> {
    match parse_u16(s, p, end) {
        Ok((n, q)) => if q + n <= end {
            Ok((s.subrange(q, q + n), q + n))
        } else {
            Err(CodecError::TruncatedInput)
        },
        Err(e) => Err(e),
    }
}

pub proof fn lemma_u16_round_trip(v: u16)
    ensures
        u16_from(u16_be(v)[0], u16_be(v)[1]) == v,
{
    let b0 = (v >> 8u16) as u8;
    let b1 = v as u8;
    assert(((b0 as u16) << 8u16) | (b1 as u16) == v) by (bit_vector)
        requires
            b0 == (v >> 8u16) as u8,
            b1 == v as u8,
    ;
}

pub proof fn lemma_u64_round_trip(v: u64, s: Seq<u8>, p: int)
    requires
        0 <= p,
        p + 8 <= s.len(),
        s.subrange(p, p + 8) == u64_be(v),
    ensures
        u64_from(s, p) == v,
{
    let e = u64_be(v);
    assert(s[p] == e[0] && s[p + 1] == e[1] && s[p + 2] == e[2] && s[p + 3] == e[3]) by {
        assert(s.subrange(p, p + 8)[0] == s[p]);
        assert(s.subrange(p, p + 8)[1] == s[p + 1]);
        assert(s.subrange(p, p + 8)[2] == s[p + 2]);
        assert(s.subrange(p, p + 8)[3] == s[p + 3]);
    }
    assert(s[p + 4] == e[4] && s[p + 5] == e[5] && s[p + 6] == e[6] && s[p + 7] == e[7]) by {
        assert(s.subrange(p, p + 8)[4] == s[p + 4]);
        assert(s.subrange(p, p + 8)[5] == s[p + 5]);
        assert(s.subrange(p, p + 8)[6] == s[p + 6]);
        assert(s.subrange(p, p + 8)[7] == s[p + 7]);
    }
    let (b0, b1, b2, b3) = (s[p], s[p + 1], s[p + 2], s[p + 3]);
    let (b4, b5, b6, b7) = (s[p + 4], s[p + 5], s[p + 6], s[p + 7]);
    assert(((b0 as u64) << 56u64) | ((b1 as u64) << 48u64) | ((b2 as u64) << 40u64) | ((
    b3 as u64) << 32u64) | ((b4 as u64) << 24u64) | ((b5 as u64) << 16u64) | ((b6 as u64)
        << 8u64) | (b7 as u64) == v) by (bit_vector)
        requires
            b0 == (v >> 56u64) as u8,
            b1 == (v >> 48u64) as u8,
            b2 == (v >> 40u64) as u8,
            b3 == (v >> 32u64) as u8,
            b4 == (v >> 24u64) as u8,
            b5 == (v >> 16u64) as u8,
            b6 == (v >> 8u64) as u8,
            b7 == v as u8,
    ;
}

/// Where `s` holds the encoding of `v` at `p`, reading there gives `v` back.
pub proof fn lemma_parse_u16_of(v: u16, s: Seq<u8>, p: int, end: int)
    requires
        0 <= p,
        p + 2 <= end <= s.len(),
        s.subrange(p, p + 2) == u16_be(v),
    ensures
        parse_u16(s, p, end) == Ok::<(u16, int), CodecError>((v, p + 2)),
{
    assert(s[p] == s.subrange(p, p + 2)[0]);
    assert(s[p + 1] == s.subrange(p, p + 2)[1]);
    lemma_u16_round_trip(v);
}

pub proof fn lemma_parse_vec16_of(b: Seq<u8>, s: Seq<u8>, p: int, end: int)
    requires
        0 <= p,
        b.len() <= MAX_VEC16,
        p + 2 + b.len() <= end <= s.len(),
        s.subrange(p, p + 2 + b.len()) == vec16_bytes(b),
    ensures
        parse_vec16(s, p, end) == Ok::<(Seq<u8>, int), CodecError>((b, p + 2 + b.len())),
{
    let e = vec16_bytes(b);
    assert(s.subrange(p, p + 2) =~= e.subrange(0, 2));
    assert(e.subrange(0, 2) =~= u16_be(b.len() as u16));
    lemma_parse_u16_of(b.len() as u16, s, p, end);
    assert(s.subrange(p + 2, p + 2 + b.len()) =~= e.subrange(2, e.len() as int));
    assert(e.subrange(2, e.len() as int) =~= b);
}

/// Where `s` holds `a + b` at `p`, it holds `a` at `p` and `b` right after.
pub proof fn lemma_split(s: Seq<u8>, p: int, a: Seq<u8>, b: Seq<u8>)
    requires
        0 <= p,
        p + a.len() + b.len() <= s.len(),
        s.subrange(p, p + a.len() + b.len()) == a + b,
    ensures
        s.subrange(p, p + a.len()) == a,
        s.subrange(p + a.len(), p + a.len() + b.len()) == b,
{
    let w = s.subrange(p, p + a.len() + b.len());
    assert forall|i: int| 0 <= i < a.len() implies s.subrange(p, p + a.len())[i] == a[i] by {
        assert(w[i] == (a + b)[i]);
    }
    assert forall|i: int| 0 <= i < b.len() implies s.subrange(
        p + a.len(),
        p + a.len() + b.len(),
    )[i] == b[i] by {
        assert(w[a.len() + i] == (a + b)[a.len() + i]);
    }
    assert(s.subrange(p, p + a.len()) =~= a);
    assert(s.subrange(p + a.len(), p + a.len() + b.len()) =~= b);
}

/// Appends the two bytes of `v`.
pub fn write_u16(out: &mut Vec<u8>, v: u16)
    ensures
        final(out)@ == old(out)@ + u16_be(v),
{
    out.push((v >> 8u16) as u8);
    out.push(v as u8);
    assert(final(out)@ =~= old(out)@ + u16_be(v));
}

/// Appends the eight bytes of `v`.
pub fn write_u64(out: &mut Vec<u8>, v: u64)
    ensures
        final(out)@ == old(out)@ + u64_be(v),
{
    out.push((v >> 56u64) as u8);
    out.push((v >> 48u64) as u8);
    out.push((v >> 40u64) as u8);
    out.push((v >> 32u64) as u8);
    out.push((v >> 24u64) as u8);
    out.push((v >> 16u64) as u8);
    out.push((v >> 8u64) as u8);
    out.push(v as u8);
    assert(final(out)@ =~= old(out)@ + u64_be(v));
}

/// Appends the bytes of `b` as they are.
pub fn write_bytes(out: &mut Vec<u8>, b: &[u8])
    ensures
        final(out)@ == old(out)@ + b@,
{
    let ghost start = out@;
    let mut i: usize = 0;
    while i < b.len()
        invariant
            i <= b@.len(),
            out@ == start + b@.subrange(0, i as int),
        decreases b@.len() - i,
    {
        out.push(b[i]);
        i = i + 1;
        assert(out@ =~= start + b@.subrange(0, i as int));
    }
    assert(b@.subrange(0, i as int) =~= b@);
}

/// Appends `b` behind a two-byte length prefix; a vector longer than the
/// prefix can announce leaves `out` as it was.
pub fn write_vec16(out: &mut Vec<u8>, b: &[u8]) -> (r: Result<(), CodecError>)
    ensures
        b@.len() <= MAX_VEC16 ==> r == Ok::<(), CodecError>(()) && final(out)@ == old(out)@
            + vec16_bytes(b@),
        b@.len() > MAX_VEC16 ==> r == Err::<(), CodecError>(CodecError::LengthOverflow)
            && final(out)@ == old(out)@,
{
    if b.len() > MAX_VEC16 {
        return Err(CodecError::LengthOverflow);
    }
    write_u16(out, b.len() as u16);
    write_bytes(out, b);
    assert(final(out)@ =~= old(out)@ + vec16_bytes(b@));
    Ok(())
}

/// A position in a byte string under decoding.
#[derive(Debug, Clone)]
pub struct Cursor {
    pub bytes: Vec<u8>,
    pub pos: usize,
}

impl Cursor {
    pub fn new(bytes: &Vec<u8>) -> (r: Cursor)
        ensures
            r.bytes@ == bytes@,
            r.pos == 0,
    {
        let mut copy: Vec<u8> = Vec::new();
        write_bytes(&mut copy, bytes.as_slice());
        Cursor { bytes: copy, pos: 0 }
    }

    pub fn read_u8(&mut self, end: usize) -> (r: Result<u8, CodecError>)
        requires
            end <= old(self).bytes@.len(),
        ensures
            final(self).bytes == old(self).bytes,
            match parse_u8(old(self).bytes@, old(self).pos as int, end as int) {
                Ok((v, q)) => r == Ok::<u8, CodecError>(v) && final(self).pos == q,
                Err(e) => r == Err::<u8, CodecError>(e) && final(self).pos == old(self).pos,
            },
    {
        if self.pos < end {
            let v = self.bytes[self.pos];
            self.pos = self.pos + 1;
            Ok(v)
        } else {
            Err(CodecError::TruncatedInput)
        }
    }

    pub fn read_u16(&mut self, end: usize) -> (r: Result<u16, CodecError>)
        requires
            end <= old(self).bytes@.len(),
        ensures
            final(self).bytes == old(self).bytes,
            match parse_u16(old(self).bytes@, old(self).pos as int, end as int) {
                Ok((v, q)) => r == Ok::<u16, CodecError>(v) && final(self).pos == q,
                Err(e) => r == Err::<u16, CodecError>(e) && final(self).pos == old(self).pos,
            },
    {
        if self.pos <= end && end - self.pos >= 2 {
            let b0 = self.bytes[self.pos];
            let b1 = self.bytes[self.pos + 1];
            self.pos = self.pos + 2;
            Ok(((b0 as u16) << 8u16) | (b1 as u16))
        } else {
            Err(CodecError::TruncatedInput)
        }
    }

    pub fn read_u64(&mut self, end: usize) -> (r: Result<u64, CodecError>)
        requires
            end <= old(self).bytes@.len(),
        ensures
            final(self).bytes == old(self).bytes,
            match parse_u64(old(self).bytes@, old(self).pos as int, end as int) {
                Ok((v, q)) => r == Ok::<u64, CodecError>(v) && final(self).pos == q,
                Err(e) => r == Err::<u64, CodecError>(e) && final(self).pos == old(self).pos,
            },
    {
        if self.pos <= end && end - self.pos >= 8 {
            let p = self.pos;
            let s = &self.bytes;
            let v = ((s[p] as u64) << 56u64) | ((s[p + 1] as u64) << 48u64) | ((s[p + 2] as u64)
                << 40u64) | ((s[p + 3] as u64) << 32u64) | ((s[p + 4] as u64) << 24u64) | ((s[p
                + 5] as u64) << 16u64) | ((s[p + 6] as u64) << 8u64) | (s[p + 7] as u64);
            self.pos = p + 8;
            Ok(v)
        } else {
            Err(CodecError::TruncatedInput)
        }
    }

    /// Reads `n` raw bytes.
    pub fn read_bytes(&mut self, n: usize, end: usize) -> (r: Result<Vec<u8>, CodecError>)
        requires
            end <= old(self).bytes@.len(),
        ensures
            final(self).bytes == old(self).bytes,
            old(self).pos + n <= end ==> (r matches Ok(v) && v@ == old(self).bytes@.subrange(
                old(self).pos as int,
                old(self).pos + n,
            ) && final(self).pos == old(self).pos + n),
            old(self).pos + n > end ==> r == Err::<Vec<u8>, CodecError>(CodecError::TruncatedInput)
                && final(self).pos == old(self).pos,
    {
        if self.pos > end || end - self.pos < n {
            return Err(CodecError::TruncatedInput);
        }
        let start = self.pos;
        let mut v: Vec<u8> = Vec::new();
        let mut i: usize = start;
        while i < start + n
            invariant
                start + n <= end <= self.bytes@.len(),
                start <= i <= start + n,
                v@ == self.bytes@.subrange(start as int, i as int),
            decreases start + n - i,
        {
            v.push(self.bytes[i]);
            i = i + 1;
            assert(v@ =~= self.bytes@.subrange(start as int, i as int));
        }
        self.pos = start + n;
        Ok(v)
    }

    pub fn read_vec16(&mut self, end: usize) -> (r: Result<Vec<u8>, CodecError>)
        requires
            end <= old(self).bytes@.len(),
        ensures
            final(self).bytes == old(self).bytes,
            match parse_vec16(old(self).bytes@, old(self).pos as int, end as int) {
                Ok((v, q)) => (r matches Ok(b) && b@ == v && final(self).pos == q),
                Err(e) => r == Err::<Vec<u8>, CodecError>(e),
            },
    {
        let n = self.read_u16(end)?;
        self.read_bytes(n as usize, end)
    }
}

} // verus!
