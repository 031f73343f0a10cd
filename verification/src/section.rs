//! The section envelope shared by all six section kinds: a one-byte tag,
//! an `i32` record count, then that many records.
//!
//! The record format itself is a parameter (a spec-level reader `f` and
//! encoder `enc`), so the decode/encode round-trip arguments are proved once
//! here and instantiated by each section kind.

use vstd::prelude::*;

use crate::error::BsorError;
use crate::replay::spec_check_tag;
use crate::wire::i32_to_le;
use crate::wire::lemma_i32_le_identity;
use crate::wire::lemma_le_i32_identity;
use crate::wire::lemma_seq_parts2;
use crate::wire::spec_read_int;

verus! {

/// Reads `n` consecutive records with the record reader `f`.
pub open spec fn spec_load_list<T>(
    f: spec_fn(Seq<u8>, int) -> Result<(T, int), BsorError>,
    b: Seq<u8>,
    pos: int,
    n: int,
) -> Result<(Seq<T>, int), BsorError>
    decreases n,
{
    if n <= 0 {
        Ok((Seq::empty(), pos))
    } else {
        match f(b, pos) {
            Err(e) => Err(e),
            Ok((x, p)) => match spec_load_list(f, b, p, n - 1) {
                Err(e) => Err(e),
                Ok((s, p2)) => Ok((seq![x] + s, p2)),
            },
        }
    }
}

/// The concatenated wire form of a record sequence.
pub open spec fn enc_list<T>(enc: spec_fn(T) -> Seq<u8>, s: Seq<T>) -> Seq<u8>
    decreases s.len(),
{
    if s.len() == 0 {
        Seq::empty()
    } else {
        enc(s[0]) + enc_list(enc, s.drop_first())
    }
}

/// Reads a whole section: the expected tag, the record count, then the
/// records.  A negative count can never be satisfied and is a short read.
pub open spec fn spec_load_section<T>(
    f: spec_fn(Seq<u8>, int) -> Result<(T, int), BsorError>,
    b: Seq<u8>,
    pos: int,
    tag: u8,
) -> Result<(Seq<T>, int), BsorError> {
    match spec_check_tag(b, pos, tag) {
        Err(e) => Err(e),
        Ok(p1) => match spec_read_int(b, p1) {
            Err(e) => Err(e),
            Ok((count, p2)) => if count < 0 {
                Err(BsorError::Io)
            } else {
                spec_load_list(f, b, p2, count as int)
            },
        },
    }
}

/// The wire form of a whole section.
pub open spec fn enc_section<T>(enc: spec_fn(T) -> Seq<u8>, tag: u8, s: Seq<T>) -> Seq<u8>
    recommends
        s.len() <= i32::MAX,
{
    seq![tag] + i32_to_le(s.len() as i32) + enc_list(enc, s)
}

/// The deferred size computation for a fixed-width section: read tag and
/// count, then take the byte length as `5 + count * w` without visiting any
/// record.
pub open spec fn spec_scan_fixed(b: Seq<u8>, pos: int, tag: u8, w: int) -> Result<
    (i32, int),
    BsorError,
> {
    match spec_check_tag(b, pos, tag) {
        Err(e) => Err(e),
        Ok(p1) => match spec_read_int(b, p1) {
            Err(e) => Err(e),
            Ok((count, p2)) => if count < 0 {
                Err(BsorError::Io)
            } else {
                Ok((count, 5 + count * w))
            },
        },
    }
}

/// A section whose tag byte holds anything but the expected ordinal is
/// rejected as invalid before any byte of its body is read.
pub proof fn lemma_section_bad_tag<T>(
    f: spec_fn(Seq<u8>, int) -> Result<(T, int), BsorError>,
    b: Seq<u8>,
    pos: int,
    tag: u8,
)
    requires
        0 <= pos < b.len(),
        b[pos] != tag,
    ensures
        spec_load_section(f, b, pos, tag) == Err::<(Seq<T>, int), _>(BsorError::InvalidBsor),
{
}

/// A record list read in two runs, one after the other, reads the
/// concatenation of what the runs read.
pub proof fn lemma_load_list_split<T>(
    f: spec_fn(Seq<u8>, int) -> Result<(T, int), BsorError>,
    b: Seq<u8>,
    pos: int,
    k: int,
    m: int,
    s1: Seq<T>,
    p: int,
)
    requires
        k >= 0,
        m >= 0,
        spec_load_list(f, b, pos, k) == Ok::<_, BsorError>((s1, p)),
    ensures
        spec_load_list(f, b, pos, k + m) == (match spec_load_list(f, b, p, m) {
            Ok((s2, p2)) => Ok::<_, BsorError>((s1 + s2, p2)),
            Err(e) => Err(e),
        }),
    decreases k,
{
    if k == 0 {
        assert(s1 =~= Seq::empty());
        if spec_load_list(f, b, p, m) is Ok {
            let (s2, p2) = spec_load_list(f, b, p, m)->Ok_0;
            assert(s1 + s2 =~= s2);
        }
    } else {
        let (x, px) = f(b, pos)->Ok_0;
        let (s1t, pt) = spec_load_list(f, b, px, k - 1)->Ok_0;
        assert(pt == p && s1 == seq![x] + s1t);
        lemma_load_list_split(f, b, px, k - 1, m, s1t, p);
        if spec_load_list(f, b, p, m) is Ok {
            let (s2, p2) = spec_load_list(f, b, p, m)->Ok_0;
            assert(seq![x] + (s1t + s2) =~= s1 + s2);
        }
    }
}

/// If the record reader reads back every well-formed encoded record, then
/// the list reader reads back every sequence of well-formed encoded records.
pub proof fn lemma_list_round_trip<T>(
    f: spec_fn(Seq<u8>, int) -> Result<(T, int), BsorError>,
    enc: spec_fn(T) -> Seq<u8>,
    wf: spec_fn(T) -> bool,
    b: Seq<u8>,
    pos: int,
    s: Seq<T>,
)
    requires
        forall|p: int, v: T|
            wf(v) && 0 <= p && p + enc(v).len() <= b.len() && #[trigger] b.subrange(
                p,
                p + enc(v).len(),
            ) == enc(v) ==> f(b, p) == Ok::<_, BsorError>((v, p + enc(v).len())),
        forall|i: int| 0 <= i < s.len() ==> wf(#[trigger] s[i]),
        0 <= pos,
        pos + enc_list(enc, s).len() <= b.len(),
        b.subrange(pos, pos + enc_list(enc, s).len()) == enc_list(enc, s),
    ensures
        spec_load_list(f, b, pos, s.len() as int) == Ok::<_, BsorError>((
            s,
            pos + enc_list(enc, s).len(),
        )),
    decreases s.len(),
{
    if s.len() == 0 {
        assert(s =~= Seq::empty());
    } else {
        let e0 = enc(s[0]);
        let rest = enc_list(enc, s.drop_first());
        let all = enc_list(enc, s);
        assert(all == e0 + rest);
        vstd::seq::axiom_seq_add_len(e0, rest);
        let mid = pos + e0.len();
        let end = pos + all.len();
        assert(b.subrange(pos, end) =~= b.subrange(pos, mid) + b.subrange(mid, end));
        lemma_seq_parts2(b.subrange(pos, mid), b.subrange(mid, end), e0, rest);
        assert(b.subrange(pos, pos + enc(s[0]).len()) == enc(s[0]));
        assert(f(b, pos) == Ok::<_, BsorError>((s[0], mid)));
        assert(forall|i: int|
            0 <= i < s.drop_first().len() ==> wf(#[trigger] s.drop_first()[i]));
        lemma_list_round_trip(f, enc, wf, b, mid, s.drop_first());
        assert(seq![s[0]] + s.drop_first() =~= s);
    }
}

/// If the record reader only ever consumes the exact wire form of what it
/// returns, so does the list reader.
pub proof fn lemma_list_exact<T>(
    f: spec_fn(Seq<u8>, int) -> Result<(T, int), BsorError>,
    enc: spec_fn(T) -> Seq<u8>,
    b: Seq<u8>,
    pos: int,
    n: int,
)
    requires
        forall|p: int|
            #[trigger] f(b, p) matches Ok((v, pe)) ==> 0 <= p && p <= pe <= b.len() && b.subrange(
                p,
                pe,
            ) == enc(v),
        n >= 0,
        0 <= pos <= b.len(),
    ensures
        spec_load_list(f, b, pos, n) matches Ok((s, p2)) ==> s.len() == n && pos <= p2 <= b.len()
            && b.subrange(pos, p2) == enc_list(enc, s),
    decreases n,
{
    if n > 0 && spec_load_list(f, b, pos, n) is Ok {
        let (x, px) = f(b, pos)->Ok_0;
        lemma_list_exact(f, enc, b, px, n - 1);
        let (st, p2) = spec_load_list(f, b, px, n - 1)->Ok_0;
        let s = seq![x] + st;
        assert(s.drop_first() =~= st);
        assert(s[0] == x);
        assert(enc_list(enc, s) == enc(x) + enc_list(enc, st));
        assert(b.subrange(pos, p2) =~= b.subrange(pos, px) + b.subrange(px, p2));
    }
}

/// If every record is `w` bytes wide on the wire, a list of `n` records that
/// decodes ends exactly `n * w` bytes further.
pub proof fn lemma_list_fixed_width<T>(
    f: spec_fn(Seq<u8>, int) -> Result<(T, int), BsorError>,
    b: Seq<u8>,
    pos: int,
    n: int,
    w: int,
)
    requires
        forall|p: int| #[trigger] f(b, p) matches Ok((v, pe)) ==> pe == p + w,
        n >= 0,
    ensures
        spec_load_list(f, b, pos, n) matches Ok((s, p2)) ==> s.len() == n && p2 == pos + n * w,
    decreases n,
{
    if spec_load_list(f, b, pos, n) is Ok {
        if n == 0 {
            assert(n * w == 0) by (nonlinear_arith)
                requires
                    n == 0,
            ;
        } else {
            let (x, px) = f(b, pos)->Ok_0;
            lemma_list_fixed_width(f, b, px, n - 1, w);
            let (st, p2) = spec_load_list(f, b, px, n - 1)->Ok_0;
            vstd::seq::axiom_seq_add_len(seq![x], st);
            assert(px == pos + w);
            assert(pos + w + (n - 1) * w == pos + n * w) by (nonlinear_arith);
        }
    }
}

/// A whole well-formed encoded section decodes back to its records.
pub proof fn lemma_section_round_trip<T>(
    f: spec_fn(Seq<u8>, int) -> Result<(T, int), BsorError>,
    enc: spec_fn(T) -> Seq<u8>,
    wf: spec_fn(T) -> bool,
    b: Seq<u8>,
    pos: int,
    tag: u8,
    s: Seq<T>,
)
    requires
        forall|p: int, v: T|
            wf(v) && 0 <= p && p + enc(v).len() <= b.len() && #[trigger] b.subrange(
                p,
                p + enc(v).len(),
            ) == enc(v) ==> f(b, p) == Ok::<_, BsorError>((v, p + enc(v).len())),
        forall|i: int| 0 <= i < s.len() ==> wf(#[trigger] s[i]),
        s.len() <= i32::MAX,
        0 <= pos,
        pos + enc_section(enc, tag, s).len() <= b.len(),
        b.subrange(pos, pos + enc_section(enc, tag, s).len()) == enc_section(enc, tag, s),
    ensures
        spec_load_section(f, b, pos, tag) == Ok::<_, BsorError>((
            s,
            pos + enc_section(enc, tag, s).len(),
        )),
{
    let count = i32_to_le(s.len() as i32);
    let body = enc_list(enc, s);
    let all = enc_section(enc, tag, s);
    assert(all == seq![tag] + count + body);
    vstd::seq::axiom_seq_add_len(seq![tag], count);
    vstd::seq::axiom_seq_add_len(seq![tag] + count, body);
    let end = pos + all.len();
    assert(b.subrange(pos, end) =~= b.subrange(pos, pos + 1) + b.subrange(pos + 1, pos + 5)
        + b.subrange(pos + 5, end));
    lemma_seq_parts2(
        b.subrange(pos, pos + 1) + b.subrange(pos + 1, pos + 5),
        b.subrange(pos + 5, end),
        seq![tag] + count,
        body,
    );
    lemma_seq_parts2(b.subrange(pos, pos + 1), b.subrange(pos + 1, pos + 5), seq![tag], count);
    assert(b[pos] == b.subrange(pos, pos + 1)[0]);
    assert(b[pos] == tag);
    lemma_i32_le_identity(s.len() as i32);
    assert(b.subrange(pos + 1, pos + 5) == count);
    assert(spec_read_int(b, pos + 1) == Ok::<_, BsorError>((s.len() as i32, pos + 5)));
    lemma_list_round_trip(f, enc, wf, b, pos + 5, s);
}

/// A section that decodes consumed exactly the wire form of its records.
pub proof fn lemma_section_exact<T>(
    f: spec_fn(Seq<u8>, int) -> Result<(T, int), BsorError>,
    enc: spec_fn(T) -> Seq<u8>,
    b: Seq<u8>,
    pos: int,
    tag: u8,
)
    requires
        forall|p: int|
            #[trigger] f(b, p) matches Ok((v, pe)) ==> 0 <= p && p <= pe <= b.len() && b.subrange(
                p,
                pe,
            ) == enc(v),
    ensures
        spec_load_section(f, b, pos, tag) matches Ok((s, p2)) ==> s.len() <= i32::MAX && 0 <= pos
            && pos + 5 <= p2 <= b.len() && b.subrange(pos, p2) == enc_section(enc, tag, s),
{
    if spec_load_section(f, b, pos, tag) is Ok {
        let (s, p2) = spec_load_section(f, b, pos, tag)->Ok_0;
        let count = i32_from_le_at(b, pos + 1);
        lemma_list_exact(f, enc, b, pos + 5, count as int);
        lemma_le_i32_identity(b.subrange(pos + 1, pos + 5));
        assert(s.len() == count);
        assert(i32_to_le(s.len() as i32) == b.subrange(pos + 1, pos + 5));
        assert(b.subrange(pos, p2) =~= b.subrange(pos, pos + 1) + b.subrange(pos + 1, pos + 5)
            + b.subrange(pos + 5, p2));
        assert(b.subrange(pos, pos + 1) =~= seq![tag]);
        assert(b.subrange(pos, p2) == enc_section(enc, tag, s));
    }
}

/// The `i32` at a fixed position, used to name the count field in proofs.
pub open spec fn i32_from_le_at(b: Seq<u8>, pos: int) -> i32 {
    crate::wire::i32_from_le(b.subrange(pos, pos + 4))
}

/// The deferred size of a fixed-width section agrees with the bytes the
/// eager decode of that section consumes.
pub proof fn lemma_scan_fixed_agrees<T>(
    f: spec_fn(Seq<u8>, int) -> Result<(T, int), BsorError>,
    b: Seq<u8>,
    pos: int,
    tag: u8,
    w: int,
)
    requires
        forall|p: int| #[trigger] f(b, p) matches Ok((v, pe)) ==> pe == p + w,
    ensures
        spec_load_section(f, b, pos, tag) matches Ok((s, p2)) ==> spec_scan_fixed(b, pos, tag, w)
            == Ok::<_, BsorError>((s.len() as i32, p2 - pos)),
{
    if spec_load_section(f, b, pos, tag) is Ok {
        let (s, p2) = spec_load_section(f, b, pos, tag)->Ok_0;
        let count = i32_from_le_at(b, pos + 1);
        lemma_list_fixed_width(f, b, pos + 5, count as int, w);
        assert(p2 == pos + 5 + count * w);
    }
}

/// Appending one more record's bytes extends the encoded record list by one.
pub proof fn lemma_enc_list_push<T>(enc: spec_fn(T) -> Seq<u8>, s: Seq<T>, i: int)
    requires
        0 <= i < s.len(),
    ensures
        enc_list(enc, s.subrange(0, i + 1)) == enc_list(enc, s.subrange(0, i)) + enc(s[i]),
    decreases i,
{
    let u = s.subrange(0, i + 1);
    if i == 0 {
        assert(u.drop_first() =~= Seq::<T>::empty());
        assert(s.subrange(0, 0) =~= Seq::<T>::empty());
        assert(enc_list(enc, u) == enc(s[0]) + enc_list(enc, Seq::<T>::empty()));
        assert(enc(s[0]) + Seq::<u8>::empty() =~= Seq::<u8>::empty() + enc(s[0]));
    } else {
        let t = s.drop_first();
        lemma_enc_list_push(enc, t, i - 1);
        assert(u.drop_first() =~= t.subrange(0, i));
        assert(s.subrange(0, i).drop_first() =~= t.subrange(0, i - 1));
        assert(u[0] == s[0] && s.subrange(0, i)[0] == s[0]);
        assert(t[i - 1] == s[i]);
        assert(enc_list(enc, u) == enc(s[0]) + (enc_list(enc, t.subrange(0, i - 1)) + enc(s[i])));
        assert(enc_list(enc, s.subrange(0, i)) == enc(s[0]) + enc_list(enc, t.subrange(0, i - 1)));
        assert(enc(s[0]) + (enc_list(enc, t.subrange(0, i - 1)) + enc(s[i])) =~= (enc(s[0])
            + enc_list(enc, t.subrange(0, i - 1))) + enc(s[i]));
    }
}

/// A record kind of the wire format: a spec-level reader and encoder, and
/// executable counterparts proved against them.
pub trait WireRecord: Sized {
    /// The record's reader at the specification level.
    spec fn spec_load(b: Seq<u8>, pos: int) -> Result<(Self, int), BsorError>;

    /// The record's wire form at the specification level.
    spec fn spec_enc(self) -> Seq<u8>;

    /// Decodes one record at the cursor.
    fn load(bytes: &Vec<u8>, pos: &mut usize) -> (r: Result<Self, BsorError>)
        ensures
            match r {
                Ok(v) => Self::spec_load(bytes@, *old(pos) as int) == Ok::<_, BsorError>((
                    v,
                    *final(pos) as int,
                )),
                Err(e) => Self::spec_load(bytes@, *old(pos) as int) == Err::<(Self, int), _>(e)
                    && *final(pos) == *old(pos),
            },
    ;

    /// Appends the record's wire form.
    fn append(&self, out: &mut Vec<u8>)
        ensures
            final(out)@ == old(out)@ + self.spec_enc(),
    ;
}

/// The record reader of a kind, as a first-class spec function.
pub open spec fn record_reader<T: WireRecord>() -> spec_fn(Seq<u8>, int) -> Result<
    (T, int),
    BsorError,
> {
    |b: Seq<u8>, p: int| T::spec_load(b, p)
}

/// The record encoder of a kind, as a first-class spec function.
pub open spec fn record_encoder<T: WireRecord>() -> spec_fn(T) -> Seq<u8> {
    |v: T| v.spec_enc()
}

/// Appends a whole section: the kind's tag, the record count, then every
/// record's wire form in order.
pub fn append_section_records<T: WireRecord>(
    out: &mut Vec<u8>,
    bt: crate::replay::BlockType,
    records: &Vec<T>,
)
    requires
        records@.len() <= i32::MAX,
    ensures
        final(out)@ == old(out)@ + enc_section(record_encoder::<T>(), bt.spec_tag(), records@),
{
    let ghost enc = record_encoder::<T>();
    let n = records.len();
    crate::write_utils::append_byte(out, bt.tag());
    crate::write_utils::append_int(out, n as i32);
    let mut i: usize = 0;
    while i < n
        invariant
            n == records@.len() <= i32::MAX,
            i <= n,
            enc == record_encoder::<T>(),
            out@ == old(out)@ + seq![bt.spec_tag()] + i32_to_le(n as i32) + enc_list(
                enc,
                records@.subrange(0, i as int),
            ),
        decreases n - i,
    {
        let x = &records[i];
        let ghost out0 = out@;
        x.append(out);
        proof {
            lemma_enc_list_push(enc, records@, i as int);
            assert(enc(records@[i as int]) == records@[i as int].spec_enc());
            assert(out@ =~= old(out)@ + seq![bt.spec_tag()] + i32_to_le(n as i32) + enc_list(
                enc,
                records@.subrange(0, i + 1),
            ));
        }
        i = i + 1;
    }
    proof {
        assert(records@.subrange(0, n as int) =~= records@);
        assert(out@ =~= old(out)@ + enc_section(enc, bt.spec_tag(), records@));
    }
}

/// Decodes a whole section of records of one kind: tag, count, records.
pub fn load_section_records<T: WireRecord>(
    bytes: &Vec<u8>,
    pos: &mut usize,
    bt: crate::replay::BlockType,
) -> (r: Result<Vec<T>, BsorError>)
    ensures
        match r {
            Ok(v) => spec_load_section(
                record_reader::<T>(),
                bytes@,
                *old(pos) as int,
                bt.spec_tag(),
            ) == Ok::<_, BsorError>((v@, *final(pos) as int)),
            Err(e) => spec_load_section(
                record_reader::<T>(),
                bytes@,
                *old(pos) as int,
                bt.spec_tag(),
            ) == Err::<(Seq<T>, int), _>(e) && *final(pos) == *old(pos),
        },
{
    let ghost f = record_reader::<T>();
    let start = *pos;
    match crate::replay::assert_start_of_block(bytes, pos, bt) {
        Ok(()) => (),
        Err(e) => {
            return Err(e);
        },
    }
    let count = match crate::read_utils::read_int(bytes, pos) {
        Ok(c) => c,
        Err(e) => {
            *pos = start;
            return Err(e);
        },
    };
    if count < 0 {
        *pos = start;
        return Err(BsorError::Io);
    }
    let n = count as usize;
    let ghost body_start = *pos as int;
    let mut v: Vec<T> = Vec::new();
    let mut i: usize = 0;
    while i < n
        invariant
            i <= n,
            f == record_reader::<T>(),
            spec_load_list(f, bytes@, body_start, i as int) == Ok::<_, BsorError>((
                v@,
                *pos as int,
            )),
            spec_load_section(f, bytes@, start as int, bt.spec_tag()) == spec_load_list(
                f,
                bytes@,
                body_start,
                n as int,
            ),
            start == *old(pos),
        decreases n - i,
    {
        let ghost p_i = *pos as int;
        let ghost v0 = v@;
        match T::load(bytes, pos) {
            Ok(x) => {
                v.push(x);
                proof {
                    assert(f(bytes@, p_i) == T::spec_load(bytes@, p_i));
                    lemma_load_list_split(f, bytes@, body_start, i as int, 1, v0, p_i);
                    assert(spec_load_list(f, bytes@, *pos as int, 0) == Ok::<_, BsorError>((
                        Seq::<T>::empty(),
                        *pos as int,
                    )));
                    assert(spec_load_list(f, bytes@, p_i, 1) == Ok::<_, BsorError>((
                        seq![x] + Seq::<T>::empty(),
                        *pos as int,
                    )));
                    assert(v0 + (seq![x] + Seq::<T>::empty()) =~= v@);
                }
            },
            Err(e) => {
                proof {
                    assert(f(bytes@, p_i) == T::spec_load(bytes@, p_i));
                    lemma_load_list_split(
                        f,
                        bytes@,
                        body_start,
                        i as int,
                        n - i as int,
                        v0,
                        p_i,
                    );
                    assert(spec_load_list(f, bytes@, p_i, n - i as int) == Err::<
                        (Seq<T>, int),
                        _,
                    >(e));
                }
                *pos = start;
                return Err(e);
            },
        }
        i = i + 1;
    }
    Ok(v)
}

/// Computes the deferred size of a fixed-width section: reads tag and count,
/// then returns the count together with the byte length `5 + count * w`.
/// Only the five envelope bytes are visited.
pub fn scan_fixed(bytes: &Vec<u8>, pos: &mut usize, bt: crate::replay::BlockType, w: usize) -> (r:
    Result<(i32, u64), BsorError>)
    requires
        w <= 100,
    ensures
        match r {
            Ok((count, size)) => spec_scan_fixed(
                bytes@,
                *old(pos) as int,
                bt.spec_tag(),
                w as int,
            ) == Ok::<_, BsorError>((count, size as int)) && *final(pos) == *old(pos) + 5,
            Err(e) => spec_scan_fixed(bytes@, *old(pos) as int, bt.spec_tag(), w as int) == Err::<
                (i32, int),
                _,
            >(e) && *final(pos) == *old(pos),
        },
{
    let start = *pos;
    match crate::replay::assert_start_of_block(bytes, pos, bt) {
        Ok(()) => (),
        Err(e) => {
            return Err(e);
        },
    }
    let count = match crate::read_utils::read_int(bytes, pos) {
        Ok(c) => c,
        Err(e) => {
            *pos = start;
            return Err(e);
        },
    };
    if count < 0 {
        *pos = start;
        return Err(BsorError::Io);
    }
    proof {
        assert((count as u64) * (w as u64) <= 0x7fffffffu64 * 100) by (nonlinear_arith)
            requires
                0 <= count as u64 <= 0x7fffffffu64,
                w as u64 <= 100,
        ;
    }
    let size: u64 = 5 + (count as u64) * (w as u64);
    Ok((count, size))
}

} // verus!
