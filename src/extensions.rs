//! Extensions: tagged optional attributes of a key package, their codec, and
//! the operations on an ordered list of them.
use vstd::prelude::*;
use crate::codec::{
    lemma_parse_u16_of, lemma_parse_vec16_of, lemma_split, lemma_u64_round_trip,
    parse_u16, parse_u64, parse_vec16, u16_be, u64_be, vec16_bytes, write_bytes, write_u16,
    write_u64, write_vec16, CodecError, Cursor, MAX_VEC16,
};
use crate::crypto::unix_time_now;

verus! {

pub const CAPABILITIES_TAG: u16 = 1;

pub const LIFETIME_TAG: u16 = 2;

pub const KEY_ID_TAG: u16 = 3;

/// An extension of a known kind, or the raw tag and body of an unknown one.
#[derive(Debug, Clone, PartialEq, Eq)]
pub enum Extension {
    /// The body of a capabilities extension, kept as it came.
    Capabilities(Vec<u8>),
    /// The window of seconds since the Unix epoch in which the key package is valid.
    Lifetime { not_before: u64, not_after: u64 },
    /// An opaque identifier of the key package.
    KeyId(Vec<u8>),
    /// An extension of a tag that this library does not interpret.
    Opaque { tag: u16, data: Vec<u8> },
}

pub enum ExtensionModel {
    Capabilities(Seq<u8>),
    Lifetime { not_before: u64, not_after: u64 },
    KeyId(Seq<u8>),
    Opaque { tag: u16, data: Seq<u8> },
}

impl View for Extension {
    type V = ExtensionModel;

    open spec fn view(&self) -> ExtensionModel {
        match self {
            Extension::Capabilities(d) => ExtensionModel::Capabilities(d@),
            Extension::Lifetime { not_before, not_after } => ExtensionModel::Lifetime {
                not_before: *not_before,
                not_after: *not_after,
            },
            Extension::KeyId(k) => ExtensionModel::KeyId(k@),
            Extension::Opaque { tag, data } => ExtensionModel::Opaque { tag: *tag, data: data@ },
        }
    }
}

pub open spec fn is_known_tag(t: u16) -> bool {
    t == CAPABILITIES_TAG || t == LIFETIME_TAG || t == KEY_ID_TAG
}

impl ExtensionModel {
    pub open spec fn tag(self) -> u16 {
        match self {
            ExtensionModel::Capabilities(_) => CAPABILITIES_TAG,
            ExtensionModel::Lifetime { .. } => LIFETIME_TAG,
            ExtensionModel::KeyId(_) => KEY_ID_TAG,
            ExtensionModel::Opaque { tag, .. } => tag,
        }
    }

    pub open spec fn body(self) -> Seq<u8> {
        match self {
            ExtensionModel::Capabilities(d) => d,
            ExtensionModel::Lifetime { not_before, not_after } => u64_be(not_before) + u64_be(
                not_after,
            ),
            ExtensionModel::KeyId(k) => vec16_bytes(k),
            ExtensionModel::Opaque { data, .. } => data,
        }
    }

    /// An opaque extension never carries the tag of a known kind.
    pub open spec fn wf(self) -> bool {
        self matches ExtensionModel::Opaque { tag, .. } ==> !is_known_tag(tag)
    }

    pub open spec fn fits(self) -> bool {
        &&& self.body().len() <= MAX_VEC16
        &&& (self matches ExtensionModel::KeyId(k) ==> k.len() <= MAX_VEC16)
    }

    /// Tag, then the body behind a two-byte length.
    pub open spec fn bytes(self) -> Seq<u8> {
        u16_be(self.tag()) + vec16_bytes(self.body())
    }

    /// The extension's own check at time `now`: a lifetime holds `now`
    /// within its bounds; the other kinds always pass.
    pub open spec fn valid_at(self, now: u64) -> bool {
        match self {
            ExtensionModel::Lifetime { not_before, not_after } => not_before <= now <= not_after,
            _ => true,
        }
    }
}

/// Reads an extension body of tag `t` that fills `s[p..end]`.
pub open spec fn parse_body(t: u16, s: Seq<u8>, p: int, end: int) -> Result<
    ExtensionModel,
    CodecError,
> {
    if t == CAPABILITIES_TAG {
        Ok(ExtensionModel::Capabilities(s.subrange(p, end)))
    } else if t == LIFETIME_TAG {
        if end - p == 16 {
            Ok(
                ExtensionModel::Lifetime {
                    not_before: parse_u64(s, p, end)->Ok_0.0,
                    not_after: parse_u64(s, p + 8, end)->Ok_0.0,
                },
            )
        } else {
            Err(CodecError::Malformed)
        }
    } else if t == KEY_ID_TAG {
        match parse_vec16(s, p, end) {
            Ok((k, q)) => if q == end {
                Ok(ExtensionModel::KeyId(k))
            } else {
                Err(CodecError::Malformed)
            },
            Err(_) => Err(CodecError::Malformed),
        }
    } else {
        Ok(ExtensionModel::Opaque { tag: t, data: s.subrange(p, end) })
    }
}

pub open spec fn parse_extension(s: Seq<u8>, p: int, end: int) -> Result<
    (ExtensionModel, int),
    CodecError,
> {
    match parse_u16(s, p, end) {
        Err(e) => Err(e),
        Ok((t, at1)) => match parse_u16(s, at1, end) {
            Err(e) => Err(e),
            Ok((n, at2)) => if at2 + n <= end {
                match parse_body(t, s, at2, at2 + n) {
                    Ok(e) => Ok((e, at2 + n)),
                    Err(e) => Err(e),
                }
            } else {
                Err(CodecError::TruncatedInput)
            },
        },
    }
}

/// Reads extensions from `p` until `end` is reached exactly.
pub open spec fn parse_extensions(s: Seq<u8>, p: int, end: int) -> Result<
    Seq<ExtensionModel>,
    CodecError,
>
    decreases end - p,
{
    if p >= end {
        Ok(Seq::empty())
    } else {
        match parse_extension(s, p, end) {
            Err(e) => Err(e),
            Ok((e, q)) => if q <= p {
                Err(CodecError::Malformed)
            } else {
                match parse_extensions(s, q, end) {
                    Ok(rest) => Ok(seq![e] + rest),
                    Err(err) => Err(err),
                }
            },
        }
    }
}

/// The concatenated encodings of a list of extensions.
pub open spec fn extensions_body(es: Seq<ExtensionModel>) -> Seq<u8>
    decreases es.len(),
{
    if es.len() == 0 {
        Seq::empty()
    } else {
        extensions_body(es.drop_last()) + es.last().bytes()
    }
}

pub open spec fn extensions_fit(es: Seq<ExtensionModel>) -> bool {
    &&& forall|i: int| 0 <= i < es.len() ==> #[trigger] es[i].fits()
    &&& extensions_body(es).len() <= MAX_VEC16
}

pub open spec fn extensions_wf(es: Seq<ExtensionModel>) -> bool {
    forall|i: int| 0 <= i < es.len() ==> #[trigger] es[i].wf()
}

/// Two entries of the list share a type tag.
pub open spec fn has_duplicate_tags(es: Seq<ExtensionModel>) -> bool {
    exists|i: int, j: int| 0 <= i < j < es.len() && #[trigger] es[i].tag() == #[trigger] es[j].tag()
}

pub open spec fn all_valid_at(es: Seq<ExtensionModel>, now: u64) -> bool {
    forall|i: int| 0 <= i < es.len() ==> #[trigger] es[i].valid_at(now)
}

/// The identifier of the first key-ID extension of the list.
pub open spec fn find_key_id(es: Seq<ExtensionModel>) -> Option<Seq<u8>>
    decreases es.len(),
{
    if es.len() == 0 {
        None
    } else {
        match es[0] {
            ExtensionModel::KeyId(k) => Some(k),
            _ => find_key_id(es.drop_first()),
        }
    }
}

pub proof fn lemma_extensions_body_push(es: Seq<ExtensionModel>, e: ExtensionModel)
    ensures
        extensions_body(es.push(e)) == extensions_body(es) + e.bytes(),
{
    assert(es.push(e).drop_last() =~= es);
}

pub proof fn lemma_extensions_body_prepend(e: ExtensionModel, rest: Seq<ExtensionModel>)
    ensures
        extensions_body(seq![e] + rest) == e.bytes() + extensions_body(rest),
    decreases rest.len(),
{
    let l = seq![e] + rest;
    if rest.len() == 0 {
        assert(l.drop_last() =~= Seq::<ExtensionModel>::empty());
        assert(l.last() == e);
        assert(extensions_body(l.drop_last()) == Seq::<u8>::empty());
        assert(extensions_body(rest) == Seq::<u8>::empty());
        assert(extensions_body(l) =~= e.bytes() + extensions_body(rest));
    } else {
        assert(l.drop_last() =~= seq![e] + rest.drop_last());
        lemma_extensions_body_prepend(e, rest.drop_last());
        assert(e.bytes() + extensions_body(rest.drop_last()) + rest.last().bytes() =~= e.bytes()
            + (extensions_body(rest.drop_last()) + rest.last().bytes()));
    }
}

proof fn lemma_parse_body_of(e: ExtensionModel, s: Seq<u8>, p: int, q: int)
    requires
        e.wf(),
        e.fits(),
        0 <= p,
        q == p + e.body().len(),
        q <= s.len(),
        s.subrange(p, q) == e.body(),
    ensures
        parse_body(e.tag(), s, p, q) == Ok::<ExtensionModel, CodecError>(e),
{
    match e {
        ExtensionModel::Lifetime { not_before, not_after } => {
            lemma_split(s, p, u64_be(not_before), u64_be(not_after));
            lemma_u64_round_trip(not_before, s, p);
            lemma_u64_round_trip(not_after, s, p + 8);
        },
        ExtensionModel::KeyId(k) => {
            lemma_parse_vec16_of(k, s, p, q);
        },
        _ => {},
    }
}

/// Where `s` holds the encoding of `e` at `p`, reading there gives `e` back.
pub proof fn lemma_parse_extension_of(e: ExtensionModel, s: Seq<u8>, p: int, end: int)
    requires
        e.wf(),
        e.fits(),
        0 <= p,
        p + e.bytes().len() <= end <= s.len(),
        s.subrange(p, p + e.bytes().len()) == e.bytes(),
    ensures
        parse_extension(s, p, end) == Ok::<(ExtensionModel, int), CodecError>(
            (e, p + e.bytes().len()),
        ),
{
    let body = e.body();
    lemma_split(s, p, u16_be(e.tag()), vec16_bytes(body));
    lemma_parse_u16_of(e.tag(), s, p, end);
    lemma_split(s, p + 2, u16_be(body.len() as u16), body);
    lemma_parse_u16_of(body.len() as u16, s, p + 2, end);
    lemma_parse_body_of(e, s, p + 4, p + 4 + body.len());
}

/// Where `s` holds the concatenated encodings of `es` from `p` to `end`,
/// reading that range gives `es` back, in order.
pub proof fn lemma_parse_extensions_of(es: Seq<ExtensionModel>, s: Seq<u8>, p: int, end: int)
    requires
        extensions_wf(es),
        forall|i: int| 0 <= i < es.len() ==> #[trigger] es[i].fits(),
        0 <= p,
        end == p + extensions_body(es).len(),
        end <= s.len(),
        s.subrange(p, end) == extensions_body(es),
    ensures
        parse_extensions(s, p, end) == Ok::<Seq<ExtensionModel>, CodecError>(es),
    decreases es.len(),
{
    if es.len() == 0 {
        assert(parse_extensions(s, p, end) == Ok::<Seq<ExtensionModel>, CodecError>(Seq::empty()));
        assert(es =~= Seq::<ExtensionModel>::empty());
    } else {
        let e = es[0];
        let rest = es.drop_first();
        assert(es =~= seq![e] + rest);
        lemma_extensions_body_prepend(e, rest);
        assert(e.wf() && e.fits());
        lemma_split(s, p, e.bytes(), extensions_body(rest));
        lemma_parse_extension_of(e, s, p, end);
        let q = p + e.bytes().len();
        assert forall|i: int| 0 <= i < rest.len() implies #[trigger] rest[i].fits() && rest[i].wf() by {
            assert(rest[i] == es[i + 1]);
        }
        lemma_parse_extensions_of(rest, s, q, end);
    }
}

impl Extension {
    /// A lifetime extension over `[not_before, not_after]`.
    pub fn lifetime(not_before: u64, not_after: u64) -> (r: Extension)
        ensures
            r@ == (ExtensionModel::Lifetime { not_before, not_after }),
    {
        Extension::Lifetime { not_before, not_after }
    }

    /// A lifetime extension from now until `seconds` from now.
    pub fn lifetime_from_now(seconds: u64) -> (r: Extension)
        ensures
            r@ matches ExtensionModel::Lifetime { not_before, not_after } && not_after == (
            if not_before + seconds <= u64::MAX {
                not_before + seconds
            } else {
                u64::MAX as int
            }),
    {
        let now = unix_time_now();
        Extension::Lifetime { not_before: now, not_after: now.saturating_add(seconds) }
    }

    /// A key-ID extension holding a copy of `id`.
    pub fn key_id(id: &[u8]) -> (r: Extension)
        ensures
            r@ == ExtensionModel::KeyId(id@),
    {
        let mut k: Vec<u8> = Vec::new();
        write_bytes(&mut k, id);
        assert(k@ =~= id@);
        Extension::KeyId(k)
    }

    pub fn extension_type(&self) -> (r: u16)
        ensures
            r == self@.tag(),
    {
        match self {
            Extension::Capabilities(_) => CAPABILITIES_TAG,
            Extension::Lifetime { .. } => LIFETIME_TAG,
            Extension::KeyId(_) => KEY_ID_TAG,
            Extension::Opaque { tag, .. } => *tag,
        }
    }

    /// The extension's own check at time `now`.
    pub fn is_valid_at(&self, now: u64) -> (r: bool)
        ensures
            r == self@.valid_at(now),
    {
        match self {
            Extension::Lifetime { not_before, not_after } => *not_before <= now && now <= *not_after,
            _ => true,
        }
    }

    fn body(&self) -> (r: Result<Vec<u8>, CodecError>)
        ensures
            self@.fits() ==> (r matches Ok(b) && b@ == self@.body()),
            !self@.fits() ==> r == Err::<Vec<u8>, CodecError>(CodecError::LengthOverflow),
    {
        let mut b: Vec<u8> = Vec::new();
        match self {
            Extension::Capabilities(d) => write_bytes(&mut b, d.as_slice()),
            Extension::Lifetime { not_before, not_after } => {
                write_u64(&mut b, *not_before);
                write_u64(&mut b, *not_after);
            },
            Extension::KeyId(k) => {
                write_vec16(&mut b, k.as_slice())?;
            },
            Extension::Opaque { data, .. } => write_bytes(&mut b, data.as_slice()),
        }
        assert(b@ =~= self@.body());
        if b.len() > MAX_VEC16 {
            return Err(CodecError::LengthOverflow);
        }
        Ok(b)
    }

    /// Appends tag, body length and body.
    pub fn encode(&self, out: &mut Vec<u8>) -> (r: Result<(), CodecError>)
        ensures
            self@.fits() ==> r == Ok::<(), CodecError>(()) && final(out)@ == old(out)@
                + self@.bytes(),
            !self@.fits() ==> r == Err::<(), CodecError>(CodecError::LengthOverflow)
                && final(out)@ == old(out)@,
    {
        let b = self.body()?;
        write_u16(out, self.extension_type());
        let _ = write_vec16(out, b.as_slice());
        assert(final(out)@ =~= old(out)@ + self@.bytes());
        Ok(())
    }

    fn decode_body(cursor: &mut Cursor, t: u16, end: usize) -> (r: Result<Extension, CodecError>)
        requires
            old(cursor).pos <= end <= old(cursor).bytes@.len(),
        ensures
            final(cursor).bytes == old(cursor).bytes,
            match parse_body(t, old(cursor).bytes@, old(cursor).pos as int, end as int) {
                Ok(m) => (r matches Ok(e) && e@ == m),
                Err(e) => r == Err::<Extension, CodecError>(e),
            },
    {
        if t == LIFETIME_TAG {
            if end - cursor.pos != 16 {
                return Err(CodecError::Malformed);
            }
            let not_before = cursor.read_u64(end)?;
            let not_after = cursor.read_u64(end)?;
            Ok(Extension::Lifetime { not_before, not_after })
        } else if t == KEY_ID_TAG {
            match cursor.read_vec16(end) {
                Ok(k) => if cursor.pos == end {
                    Ok(Extension::KeyId(k))
                } else {
                    Err(CodecError::Malformed)
                },
                Err(_) => Err(CodecError::Malformed),
            }
        } else {
            let n = end - cursor.pos;
            let d = cursor.read_bytes(n, end)?;
            if t == CAPABILITIES_TAG {
                Ok(Extension::Capabilities(d))
            } else {
                Ok(Extension::Opaque { tag: t, data: d })
            }
        }
    }

    pub fn decode(cursor: &mut Cursor, end: usize) -> (r: Result<Extension, CodecError>)
        requires
            end <= old(cursor).bytes@.len(),
        ensures
            final(cursor).bytes == old(cursor).bytes,
            match parse_extension(old(cursor).bytes@, old(cursor).pos as int, end as int) {
                Ok((m, q)) => (r matches Ok(e) && e@ == m && final(cursor).pos == q),
                Err(e) => r == Err::<Extension, CodecError>(e),
            },
    {
        let t = cursor.read_u16(end)?;
        let n = cursor.read_u16(end)?;
        if end - cursor.pos < n as usize {
            return Err(CodecError::TruncatedInput);
        }
        let body_end = cursor.pos + n as usize;
        let e = Extension::decode_body(cursor, t, body_end)?;
        cursor.pos = body_end;
        Ok(e)
    }
}

/// Appends the list behind a two-byte total length.
pub fn encode_extensions(es: &Vec<Extension>, out: &mut Vec<u8>) -> (r: Result<(), CodecError>)
    ensures
        extensions_fit(es@.map_values(|e: Extension| e@)) ==> r == Ok::<(), CodecError>(())
            && final(out)@ == old(out)@ + vec16_bytes(
            extensions_body(es@.map_values(|e: Extension| e@)),
        ),
        !extensions_fit(es@.map_values(|e: Extension| e@)) ==> r == Err::<(), CodecError>(
            CodecError::LengthOverflow,
        ),
{
    let ghost m = es@.map_values(|e: Extension| e@);
    let mut body: Vec<u8> = Vec::new();
    let mut i: usize = 0;
    while i < es.len()
        invariant
            i <= es@.len(),
            m == es@.map_values(|e: Extension| e@),
            forall|k: int| 0 <= k < i ==> #[trigger] m[k].fits(),
            body@ == extensions_body(m.subrange(0, i as int)),
        decreases es@.len() - i,
    {
        let r = es[i].encode(&mut body);
        if r.is_err() {
            return Err(CodecError::LengthOverflow);
        }
        proof {
            lemma_extensions_body_push(m.subrange(0, i as int), m[i as int]);
            assert(m.subrange(0, i as int).push(m[i as int]) =~= m.subrange(0, i + 1));
        }
        i = i + 1;
    }
    assert(m.subrange(0, i as int) =~= m);
    if body.len() > MAX_VEC16 {
        return Err(CodecError::LengthOverflow);
    }
    let _ = write_vec16(out, body.as_slice());
    Ok(())
}

/// Reads a list written by `encode_extensions`.
pub fn decode_extensions(cursor: &mut Cursor, end: usize) -> (r: Result<Vec<Extension>, CodecError>)
    requires
        end <= old(cursor).bytes@.len(),
    ensures
        final(cursor).bytes == old(cursor).bytes,
        match parse_vec16(old(cursor).bytes@, old(cursor).pos as int, end as int) {
            Err(e) => r == Err::<Vec<Extension>, CodecError>(e),
            Ok((_, q)) => match parse_extensions(old(cursor).bytes@, old(cursor).pos + 2, q) {
                Ok(m) => (r matches Ok(v) && v@.map_values(|e: Extension| e@) == m
                    && final(cursor).pos == q),
                Err(e) => r == Err::<Vec<Extension>, CodecError>(e),
            },
        },
{
    let n = cursor.read_u16(end)?;
    if end - cursor.pos < n as usize {
        return Err(CodecError::TruncatedInput);
    }
    let list_end = cursor.pos + n as usize;
    let ghost orig = cursor.bytes;
    let ghost s = cursor.bytes@;
    let ghost start = cursor.pos as int;
    let mut v: Vec<Extension> = Vec::new();
    while cursor.pos < list_end
        invariant
            cursor.bytes == orig,
            orig == old(cursor).bytes,
            orig@ == s,
            start == old(cursor).pos + 2,
            parse_vec16(s, old(cursor).pos as int, end as int) is Ok,
            parse_vec16(s, old(cursor).pos as int, end as int)->Ok_0.1 == list_end as int,
            start <= cursor.pos <= list_end <= end <= s.len(),
            parse_extensions(s, start, list_end as int) == match parse_extensions(
                s,
                cursor.pos as int,
                list_end as int,
            ) {
                Ok(rest) => Ok(v@.map_values(|e: Extension| e@) + rest),
                Err(e) => Err::<Seq<ExtensionModel>, CodecError>(e),
            },
        decreases list_end - cursor.pos,
    {
        let ghost p = cursor.pos as int;
        let e = match Extension::decode(cursor, list_end) {
            Ok(e) => e,
            Err(err) => {
                assert(parse_extensions(s, p, list_end as int) == Err::<Seq<ExtensionModel>, CodecError>(err));
                return Err(err);
            },
        };
        proof {
            let em = e@;
            assert(p < cursor.pos);
            let vm = v@.map_values(|e: Extension| e@);
            assert(v@.push(e).map_values(|e: Extension| e@) =~= vm.push(em));
            match parse_extensions(s, cursor.pos as int, list_end as int) {
                Ok(rest) => {
                    assert(vm + (seq![em] + rest) =~= vm.push(em) + rest);
                },
                Err(_) => {},
            }
        }
        v.push(e);
    }
    proof {
        assert(v@.map_values(|e: Extension| e@) + Seq::<ExtensionModel>::empty() =~= v@.map_values(
            |e: Extension| e@,
        ));
    }
    Ok(v)
}

/// Whether two entries of the list share a type tag.
pub fn contains_duplicate_tags(es: &Vec<Extension>) -> (r: bool)
    ensures
        r == has_duplicate_tags(es@.map_values(|e: Extension| e@)),
{
    let ghost m = es@.map_values(|e: Extension| e@);
    let mut j: usize = 0;
    while j < es.len()
        invariant
            j <= es@.len(),
            m == es@.map_values(|e: Extension| e@),
            forall|a: int, b: int| 0 <= a < b < j ==> #[trigger] m[a].tag() != #[trigger] m[b].tag(),
        decreases es@.len() - j,
    {
        let tj = es[j].extension_type();
        let mut i: usize = 0;
        while i < j
            invariant
                i <= j < es@.len(),
                m == es@.map_values(|e: Extension| e@),
                tj == m[j as int].tag(),
                forall|a: int| 0 <= a < i ==> #[trigger] m[a].tag() != tj,
            decreases j - i,
        {
            if es[i].extension_type() == tj {
                assert(m[i as int].tag() == m[j as int].tag());
                return true;
            }
            i = i + 1;
        }
        j = j + 1;
    }
    false
}

/// Whether every extension passes its own check at `now`.
pub fn all_extensions_valid_at(es: &Vec<Extension>, now: u64) -> (r: bool)
    ensures
        r == all_valid_at(es@.map_values(|e: Extension| e@), now),
{
    let ghost m = es@.map_values(|e: Extension| e@);
    let mut i: usize = 0;
    while i < es.len()
        invariant
            i <= es@.len(),
            m == es@.map_values(|e: Extension| e@),
            forall|k: int| 0 <= k < i ==> #[trigger] m[k].valid_at(now),
        decreases es@.len() - i,
    {
        if !es[i].is_valid_at(now) {
            assert(!m[i as int].valid_at(now));
            return false;
        }
        i = i + 1;
    }
    true
}

} // verus!
