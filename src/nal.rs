//! H.264 bitstream framing: rewriting length-prefixed NAL units into
//! start-code-delimited (Annex B) form, in place.
use vstd::prelude::*;

verus! {

/// Why a length-prefixed buffer could not be converted.
#[derive(Debug, Clone, Copy, PartialEq, Eq, Structural)]
pub enum NalError {
    /// A unit declares more payload bytes than the buffer still holds.
    TruncatedBody,
    /// Between one and three bytes remain after the last full unit: too few
    /// for a length field.
    TruncatedLength,
}

/// The four-byte Annex B start code.
pub open spec fn start_code() -> Seq<u8> {
    seq![0u8, 0u8, 0u8, 1u8]
}

/// The big-endian unsigned value of the four bytes of `s` at `i`.
pub open spec fn be32_at(s: Seq<u8>, i: int) -> nat {
    (s[i] as nat) * 16777216 + (s[i + 1] as nat) * 65536 + (s[i + 2] as nat) * 256 + (s[i + 3] as nat)
}

/// The four big-endian bytes of `n`, for `n < 2^32`.
pub open spec fn be_bytes(n: nat) -> Seq<u8> {
    seq![(n / 16777216) as u8, ((n / 65536) % 256) as u8, ((n / 256) % 256) as u8, (n % 256) as u8]
}

/// The payloads of a length-prefixed buffer, front to back, or the reason it
/// is malformed.  Each unit is a four-byte big-endian length followed by that
/// many payload bytes; nothing may follow the last unit.
pub open spec fn lp_parse(s: Seq<u8>) -> Result<Seq<Seq<u8>>, NalError>
    decreases s.len(),
{
    if s.len() == 0 {
        Ok(Seq::empty())
    } else if s.len() < 4 {
        Err(NalError::TruncatedLength)
    } else {
        let end = 4 + be32_at(s, 0);
        if end > s.len() {
            Err(NalError::TruncatedBody)
        } else {
            match lp_parse(s.subrange(end as int, s.len() as int)) {
                Ok(rest) => Ok(seq![s.subrange(4, end as int)] + rest),
                Err(e) => Err(e),
            }
        }
    }
}

/// The length-prefixed encoding of `units`.
pub open spec fn lp_encode(units: Seq<Seq<u8>>) -> Seq<u8>
    decreases units.len(),
{
    if units.len() == 0 {
        Seq::empty()
    } else {
        be_bytes(units[0].len()) + units[0] + lp_encode(units.subrange(1, units.len() as int))
    }
}

/// The Annex B encoding of `units`: each payload preceded by a start code.
pub open spec fn annexb(units: Seq<Seq<u8>>) -> Seq<u8>
    decreases units.len(),
{
    if units.len() == 0 {
        Seq::empty()
    } else {
        start_code() + units[0] + annexb(units.subrange(1, units.len() as int))
    }
}

/// What converting the length-prefixed buffer `s` yields.
pub open spec fn converted(s: Seq<u8>) -> Result<Seq<u8>, NalError> {
    match lp_parse(s) {
        Ok(units) => Ok(annexb(units)),
        Err(e) => Err(e),
    }
}

/// Prefixes the payload list of a parse result with `done`.
pub open spec fn after(done: Seq<Seq<u8>>, r: Result<Seq<Seq<u8>>, NalError>) -> Result<
    Seq<Seq<u8>>,
    NalError,
> {
    match r {
        Ok(rest) => Ok(done + rest),
        Err(e) => Err(e),
    }
}

proof fn lemma_annexb_push(units: Seq<Seq<u8>>, u: Seq<u8>)
    ensures
        annexb(units.push(u)) == annexb(units) + start_code() + u,
    decreases units.len(),
{
    let p = units.push(u);
    if units.len() == 0 {
        assert(p.subrange(1, p.len() as int) =~= Seq::<Seq<u8>>::empty());
        assert(annexb(p.subrange(1, p.len() as int)) =~= Seq::<u8>::empty());
        assert(annexb(p) =~= start_code() + u);
    } else {
        let tail = units.subrange(1, units.len() as int);
        assert(p.subrange(1, p.len() as int) =~= tail.push(u));
        lemma_annexb_push(tail, u);
        assert(annexb(p) =~= annexb(units) + start_code() + u);
    }
}

/// One step of the parse: the unit at `i` either overruns the buffer or is
/// followed by the parse of what comes after it.
proof fn lemma_parse_step(s: Seq<u8>, i: int)
    requires
        0 <= i,
        i + 4 <= s.len(),
    ensures
        ({
            let next = i + 4 + be32_at(s, i);
            let t = s.subrange(i, s.len() as int);
            &&& next > s.len() ==> lp_parse(t) == Err::<Seq<Seq<u8>>, NalError>(NalError::TruncatedBody)
            &&& next <= s.len() ==> lp_parse(t) == after(
                seq![s.subrange(i + 4, next)],
                lp_parse(s.subrange(next, s.len() as int)),
            )
        }),
{
    let next = i + 4 + be32_at(s, i);
    let t = s.subrange(i, s.len() as int);
    assert(be32_at(t, 0) == be32_at(s, i));
    if next <= s.len() {
        assert(t.subrange(4, next - i) =~= s.subrange(i + 4, next));
        assert(t.subrange(next - i, t.len() as int) =~= s.subrange(next, s.len() as int));
    }
}

proof fn lemma_after_push(done: Seq<Seq<u8>>, unit: Seq<u8>, r: Result<Seq<Seq<u8>>, NalError>)
    ensures
        after(done, after(seq![unit], r)) == after(done.push(unit), r),
{
    if let Ok(rest) = r {
        assert(done + (seq![unit] + rest) =~= done.push(unit) + rest);
    }
}

/// Rewrites the length-prefixed NAL units of `data` into Annex B form: every
/// four-byte length field is overwritten by a start code and the payloads are
/// left as they are.  A unit whose payload runs past the end of the buffer,
/// or a tail too short for a length field, is reported instead.
pub fn length_prefixed_to_annexb(data: Vec<u8>) -> (r: Result<Vec<u8>, NalError>)
    ensures
        r matches Ok(out) ==> converted(data@) == Ok::<Seq<u8>, NalError>(out@),
        r matches Err(e) ==> converted(data@) == Err::<Seq<u8>, NalError>(e),
{
    let ghost orig = data@;
    let ghost mut done: Seq<Seq<u8>> = Seq::empty();
    let mut buf = data;
    let mut i: usize = 0;
    assert(orig.subrange(0, orig.len() as int) =~= orig);
    while i < buf.len()
        invariant
            buf@.len() == orig.len(),
            orig == data@,
            i <= orig.len(),
            buf@.subrange(0, i as int) == annexb(done),
            forall|k: int| i <= k < orig.len() ==> buf@[k] == orig[k],
            lp_parse(orig) == after(done, lp_parse(orig.subrange(i as int, orig.len() as int))),
        decreases orig.len() - i,
    {
        if buf.len() - i < 4 {
            assert(lp_parse(orig.subrange(i as int, orig.len() as int)) == Err::<
                Seq<Seq<u8>>,
                NalError,
            >(NalError::TruncatedLength));
            return Err(NalError::TruncatedLength);
        }
        let len: u64 = (buf[i] as u64) * 16777216 + (buf[i + 1] as u64) * 65536 + (buf[i + 2] as u64)
            * 256 + (buf[i + 3] as u64);
        proof {
            lemma_parse_step(orig, i as int);
        }
        let room: usize = buf.len() - i - 4;
        if len > room as u64 {
            return Err(NalError::TruncatedBody);
        }
        let ghost before = buf@;
        buf.set(i, 0);
        buf.set(i + 1, 0);
        buf.set(i + 2, 0);
        buf.set(i + 3, 1);
        let next: usize = i + 4 + len as usize;
        proof {
            let unit = orig.subrange(i + 4, next as int);
            lemma_annexb_push(done, unit);
            assert(buf@.subrange(0, next as int) =~= before.subrange(0, i as int) + start_code() + unit);
            lemma_after_push(done, unit, lp_parse(orig.subrange(next as int, orig.len() as int)));
            done = done.push(unit);
        }
        i = next;
    }
    proof {
        assert(orig.subrange(i as int, orig.len() as int) =~= Seq::<u8>::empty());
        assert(done + Seq::<Seq<u8>>::empty() =~= done);
        assert(buf@ =~= buf@.subrange(0, i as int));
    }
    Ok(buf)
}

proof fn lemma_be32_of_bytes(n: nat)
    requires
        n < 4294967296,
    ensures
        be_bytes(n).len() == 4,
        be32_at(be_bytes(n), 0) == n,
{
    let a = n / 16777216;
    let b = (n / 65536) % 256;
    let c = (n / 256) % 256;
    let d = n % 256;
    assert(a * 16777216 + b * 65536 + c * 256 + d == n && a < 256) by (nonlinear_arith)
        requires
            n < 4294967296,
            a == n / 16777216,
            b == (n / 65536) % 256,
            c == (n / 256) % 256,
            d == n % 256,
    ;
}

/// Converting a well-formed length-prefixed buffer keeps its length: each
/// four-byte length field becomes a four-byte start code, one per unit.
pub proof fn lemma_conversion_keeps_length(s: Seq<u8>)
    requires
        lp_parse(s) is Ok,
    ensures
        annexb(lp_parse(s)->Ok_0).len() == s.len(),
        converted(s) == Ok::<Seq<u8>, NalError>(annexb(lp_parse(s)->Ok_0)),
    decreases s.len(),
{
    if s.len() > 0 {
        let end = 4 + be32_at(s, 0);
        let rest = s.subrange(end as int, s.len() as int);
        lemma_conversion_keeps_length(rest);
        let units = lp_parse(s)->Ok_0;
        assert(units.subrange(1, units.len() as int) =~= lp_parse(rest)->Ok_0);
    }
}

/// Encoding payloads in length-prefixed form and parsing the result gives the
/// same payloads back, and converting that buffer frames exactly those
/// payloads with start codes.
proof fn lemma_parse_head(u: Seq<u8>, rest: Seq<u8>)
    requires
        u.len() < 4294967296,
    ensures
        lp_parse(be_bytes(u.len()) + u + rest) == after(seq![u], lp_parse(rest)),
{
    let h = be_bytes(u.len());
    let s = h + u + rest;
    lemma_be32_of_bytes(u.len());
    assert(s[0] == h[0] && s[1] == h[1] && s[2] == h[2] && s[3] == h[3]);
    let end = 4 + u.len();
    assert(s.subrange(4, end as int) =~= u);
    assert(s.subrange(end as int, s.len() as int) =~= rest);
}

/// Encoding payloads in length-prefixed form and parsing the result gives the
/// same payloads back, and converting that buffer frames exactly those
/// payloads with start codes.
pub proof fn lemma_round_trip(units: Seq<Seq<u8>>)
    requires
        forall|k: int| 0 <= k < units.len() ==> units[k].len() < 4294967296,
    ensures
        lp_parse(lp_encode(units)) == Ok::<Seq<Seq<u8>>, NalError>(units),
        converted(lp_encode(units)) == Ok::<Seq<u8>, NalError>(annexb(units)),
    decreases units.len(),
{
    if units.len() > 0 {
        let u = units[0];
        let tail = units.subrange(1, units.len() as int);
        lemma_round_trip(tail);
        assert(lp_encode(units) == be_bytes(u.len()) + u + lp_encode(tail));
        lemma_parse_head(u, lp_encode(tail));
        assert(seq![u] + tail =~= units);
    } else {
        assert(units =~= Seq::<Seq<u8>>::empty());
    }
}

proof fn lemma_annexb_concat(a: Seq<Seq<u8>>, b: Seq<Seq<u8>>)
    ensures
        annexb(a + b) == annexb(a) + annexb(b),
    decreases a.len(),
{
    if a.len() == 0 {
        assert(a + b =~= b);
        assert(annexb(a) + annexb(b) =~= annexb(b));
    } else {
        let tail = a.subrange(1, a.len() as int);
        assert((a + b).subrange(1, (a + b).len() as int) =~= tail + b);
        lemma_annexb_concat(tail, b);
        assert(annexb(a + b) =~= annexb(a) + annexb(b));
    }
}

/// In the Annex B form of `units`, each unit is one frame: a start code
/// followed by exactly that unit's payload, standing right after the frames
/// of the units before it.  So the form holds one start code per unit, and
/// cutting it at the frame boundaries gives the payloads back in order.
pub proof fn lemma_unit_framing(units: Seq<Seq<u8>>, k: int)
    requires
        0 <= k < units.len(),
    ensures
        annexb(units) == annexb(units.take(k)) + start_code() + units[k] + annexb(units.skip(k + 1)),
{
    let one = seq![units[k]];
    assert(units =~= units.take(k) + (one + units.skip(k + 1)));
    lemma_annexb_concat(units.take(k), one + units.skip(k + 1));
    lemma_annexb_concat(one, units.skip(k + 1));
    assert(one.subrange(1, 1) =~= Seq::<Seq<u8>>::empty());
    assert(annexb(one.subrange(1, 1)) =~= Seq::<u8>::empty());
    assert(annexb(one) =~= start_code() + units[k]);
    assert(annexb(units) =~= annexb(units.take(k)) + start_code() + units[k] + annexb(units.skip(k + 1)));
}

} // verus!
