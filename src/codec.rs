//! Byte-level building blocks of the wire format: fixed-width little-endian
//! integers, one-byte flags and option tags, 32-byte scalars and
//! length-prefixed sequences.
use vstd::prelude::*;

verus! {

/// Width in bytes of a scalar (a commitment, a root, an account).
pub const SCALAR_LEN: usize = 32;

/// Little-endian bytes of a `u32`.
pub open spec fn enc_u32(v: u32) -> Seq<u8> {
    seq![v as u8, (v >> 8u32) as u8, (v >> 16u32) as u8, (v >> 24u32) as u8]
}

/// The `u32` whose little-endian bytes are given.
pub open spec fn le_u32(b0: u8, b1: u8, b2: u8, b3: u8) -> u32 {
    (b0 as u32) | ((b1 as u32) << 8u32) | ((b2 as u32) << 16u32) | ((b3 as u32) << 24u32)
}

/// Little-endian bytes of a `u64`.
pub open spec fn enc_u64(v: u64) -> Seq<u8> {
    seq![
        v as u8,
        (v >> 8u64) as u8,
        (v >> 16u64) as u8,
        (v >> 24u64) as u8,
        (v >> 32u64) as u8,
        (v >> 40u64) as u8,
        (v >> 48u64) as u8,
        (v >> 56u64) as u8,
    ]
}

/// The `u64` whose little-endian bytes are `b[p..p + 8]`.
pub open spec fn le_u64(b: Seq<u8>, p: int) -> u64 {
    (b[p] as u64) | ((b[p + 1] as u64) << 8u64) | ((b[p + 2] as u64) << 16u64) | ((b[p
        + 3] as u64) << 24u64) | ((b[p + 4] as u64) << 32u64) | ((b[p + 5] as u64) << 40u64)
        | ((b[p + 6] as u64) << 48u64) | ((b[p + 7] as u64) << 56u64)
}

/// A flag is one byte, `1` for true and `0` for false.
pub open spec fn enc_bool(b: bool) -> Seq<u8> {
    if b {
        seq![1u8]
    } else {
        seq![0u8]
    }
}

/// An optional byte: tag `0`, or tag `1` followed by the byte.
pub open spec fn enc_opt_u8(o: Option<u8>) -> Seq<u8> {
    match o {
        None => seq![0u8],
        Some(v) => seq![1u8, v],
    }
}

/// An optional `u64`: tag `0`, or tag `1` followed by its eight bytes.
pub open spec fn enc_opt_u64(o: Option<u64>) -> Seq<u8> {
    match o {
        None => seq![0u8],
        Some(v) => seq![1u8] + enc_u64(v),
    }
}

/// The scalars of `s` laid end to end.
pub open spec fn concat_scalars(s: Seq<Vec<u8>>) -> Seq<u8>
    decreases s.len(),
{
    if s.len() == 0 {
        Seq::empty()
    } else {
        concat_scalars(s.drop_last()) + s.last()@
    }
}

/// Every item of `s` is a scalar of the right width.
pub open spec fn scalars_wf(s: Seq<Vec<u8>>) -> bool {
    forall|i: int| 0 <= i < s.len() ==> (#[trigger] s[i])@.len() == SCALAR_LEN
}

/// A sequence of scalars: its count as a `u32`, then the scalars.
pub open spec fn enc_scalars(s: Seq<Vec<u8>>) -> Seq<u8> {
    enc_u32(s.len() as u32) + concat_scalars(s)
}

/// A byte string: its length as a `u32`, then the bytes.
pub open spec fn enc_bytes(b: Seq<u8>) -> Seq<u8> {
    enc_u32(b.len() as u32) + b
}

/// Reading back the bytes of a `u32` gives the `u32`.
pub proof fn lemma_u32_round_trip(v: u32)
    ensures
        le_u32(v as u8, (v >> 8u32) as u8, (v >> 16u32) as u8, (v >> 24u32) as u8) == v,
{
    assert(((v as u8) as u32) | ((((v >> 8u32) as u8) as u32) << 8u32) | ((((v >> 16u32) as u8)
        as u32) << 16u32) | ((((v >> 24u32) as u8) as u32) << 24u32) == v) by (bit_vector);
}

/// Four bytes read as a `u32` are that `u32`'s bytes.
pub proof fn lemma_u32_bytes(b0: u8, b1: u8, b2: u8, b3: u8)
    ensures
        enc_u32(le_u32(b0, b1, b2, b3)) == seq![b0, b1, b2, b3],
{
    let v = le_u32(b0, b1, b2, b3);
    assert(v as u8 == b0 && (v >> 8u32) as u8 == b1 && (v >> 16u32) as u8 == b2 && (v >> 24u32)
        as u8 == b3) by (bit_vector)
        requires
            v == (b0 as u32) | ((b1 as u32) << 8u32) | ((b2 as u32) << 16u32) | ((b3 as u32)
                << 24u32),
    ;
    assert(enc_u32(v) =~= seq![b0, b1, b2, b3]);
}

/// Reading back the bytes of a `u64` gives the `u64`.
pub proof fn lemma_u64_round_trip(v: u64)
    ensures
        le_u64(enc_u64(v), 0) == v,
{
    let b = enc_u64(v);
    assert(((v as u8) as u64) | ((((v >> 8u64) as u8) as u64) << 8u64) | ((((v >> 16u64) as u8)
        as u64) << 16u64) | ((((v >> 24u64) as u8) as u64) << 24u64) | ((((v >> 32u64) as u8)
        as u64) << 32u64) | ((((v >> 40u64) as u8) as u64) << 40u64) | ((((v >> 48u64) as u8)
        as u64) << 48u64) | ((((v >> 56u64) as u8) as u64) << 56u64) == v) by (bit_vector);
}

/// Eight bytes read as a `u64` are that `u64`'s bytes.
pub proof fn lemma_u64_bytes(b: Seq<u8>, p: int)
    requires
        0 <= p,
        p + 8 <= b.len(),
    ensures
        enc_u64(le_u64(b, p)) == b.subrange(p, p + 8),
{
    let v = le_u64(b, p);
    let (b0, b1, b2, b3, b4, b5, b6, b7) = (
        b[p],
        b[p + 1],
        b[p + 2],
        b[p + 3],
        b[p + 4],
        b[p + 5],
        b[p + 6],
        b[p + 7],
    );
    assert(v as u8 == b0 && (v >> 8u64) as u8 == b1 && (v >> 16u64) as u8 == b2 && (v >> 24u64)
        as u8 == b3 && (v >> 32u64) as u8 == b4 && (v >> 40u64) as u8 == b5 && (v >> 48u64)
        as u8 == b6 && (v >> 56u64) as u8 == b7) by (bit_vector)
        requires
            v == (b0 as u64) | ((b1 as u64) << 8u64) | ((b2 as u64) << 16u64) | ((b3 as u64)
                << 24u64) | ((b4 as u64) << 32u64) | ((b5 as u64) << 40u64) | ((b6 as u64)
                << 48u64) | ((b7 as u64) << 56u64),
    ;
    assert(enc_u64(v) =~= b.subrange(p, p + 8));
}

/// Appends the little-endian bytes of `v`.
pub fn push_u32(out: &mut Vec<u8>, v: u32)
    ensures
        final(out)@ == old(out)@ + enc_u32(v),
{
    out.push(v as u8);
    out.push((v >> 8u32) as u8);
    out.push((v >> 16u32) as u8);
    out.push((v >> 24u32) as u8);
    assert(out@ =~= old(out)@ + enc_u32(v));
}


/// Appends the little-endian bytes of `v`.
pub fn push_u64(out: &mut Vec<u8>, v: u64)
    ensures
        final(out)@ == old(out)@ + enc_u64(v),
{
    out.push(v as u8);
    out.push((v >> 8u64) as u8);
    out.push((v >> 16u64) as u8);
    out.push((v >> 24u64) as u8);
    out.push((v >> 32u64) as u8);
    out.push((v >> 40u64) as u8);
    out.push((v >> 48u64) as u8);
    out.push((v >> 56u64) as u8);
    assert(out@ =~= old(out)@ + enc_u64(v));
}

/// Appends a flag.
pub fn push_bool(out: &mut Vec<u8>, b: bool)
    ensures
        final(out)@ == old(out)@ + enc_bool(b),
{
    if b {
        out.push(1u8);
    } else {
        out.push(0u8);
    }
    assert(out@ =~= old(out)@ + enc_bool(b));
}

/// Appends an optional byte.
pub fn push_opt_u8(out: &mut Vec<u8>, o: Option<u8>)
    ensures
        final(out)@ == old(out)@ + enc_opt_u8(o),
{
    match o {
        None => out.push(0u8),
        Some(v) => {
            out.push(1u8);
            out.push(v);
        },
    }
    assert(out@ =~= old(out)@ + enc_opt_u8(o));
}

/// Appends an optional `u64`.
pub fn push_opt_u64(out: &mut Vec<u8>, o: Option<u64>)
    ensures
        final(out)@ == old(out)@ + enc_opt_u64(o),
{
    match o {
        None => out.push(0u8),
        Some(v) => {
            out.push(1u8);
            push_u64(out, v);
        },
    }
    assert(out@ =~= old(out)@ + enc_opt_u64(o));
}

/// Appends a count-prefixed sequence of scalars.
pub fn push_scalars(out: &mut Vec<u8>, s: &Vec<Vec<u8>>)
    requires
        s@.len() <= u32::MAX,
    ensures
        final(out)@ == old(out)@ + enc_scalars(s@),
{
    push_u32(out, s.len() as u32);
    let ghost start = out@;
    let mut i: usize = 0;
    while i < s.len()
        invariant
            i <= s@.len(),
            out@ == start + concat_scalars(s@.subrange(0, i as int)),
            start == old(out)@ + enc_u32(s@.len() as u32),
        decreases s@.len() - i,
    {
        let item = &s[i];
        let mut j: usize = 0;
        let ghost before = out@;
        while j < item.len()
            invariant
                j <= item@.len(),
                out@ == before + item@.subrange(0, j as int),
            decreases item@.len() - j,
        {
            out.push(item[j]);
            j += 1;
            assert(out@ =~= before + item@.subrange(0, j as int));
        }
        assert(item@.subrange(0, j as int) =~= item@);
        assert(s@.subrange(0, i + 1).drop_last() =~= s@.subrange(0, i as int));
        i += 1;
        assert(out@ =~= start + concat_scalars(s@.subrange(0, i as int)));
    }
    assert(s@.subrange(0, i as int) =~= s@);
    assert(out@ =~= old(out)@ + enc_scalars(s@));
}

/// Appends a length-prefixed byte string.
pub fn push_bytes(out: &mut Vec<u8>, b: &Vec<u8>)
    requires
        b@.len() <= u32::MAX,
    ensures
        final(out)@ == old(out)@ + enc_bytes(b@),
{
    push_u32(out, b.len() as u32);
    let ghost start = out@;
    let mut j: usize = 0;
    while j < b.len()
        invariant
            j <= b@.len(),
            out@ == start + b@.subrange(0, j as int),
            start == old(out)@ + enc_u32(b@.len() as u32),
        decreases b@.len() - j,
    {
        out.push(b[j]);
        j += 1;
        assert(out@ =~= start + b@.subrange(0, j as int));
    }
    assert(b@.subrange(0, j as int) =~= b@);
    assert(out@ =~= old(out)@ + enc_bytes(b@));
}


/// The views of the scalars of `s`.
pub open spec fn scalar_views(s: Seq<Vec<u8>>) -> Seq<Seq<u8>> {
    s.map_values(|x: Vec<u8>| x@)
}

proof fn lemma_concat_len(s: Seq<Vec<u8>>)
    requires
        scalars_wf(s),
    ensures
        concat_scalars(s).len() == SCALAR_LEN * s.len(),
    decreases s.len(),
{
    if s.len() > 0 {
        assert(scalars_wf(s.drop_last()));
        lemma_concat_len(s.drop_last());
        assert(s.last() == s[s.len() - 1]);
    }
}

/// Laid end to end, scalars of the right width can be told apart again.
pub proof fn lemma_concat_injective(a: Seq<Vec<u8>>, b: Seq<Vec<u8>>)
    requires
        scalars_wf(a),
        scalars_wf(b),
        a.len() == b.len(),
        concat_scalars(a) == concat_scalars(b),
    ensures
        scalar_views(a) == scalar_views(b),
    decreases a.len(),
{
    if a.len() > 0 {
        let (a0, b0) = (a.drop_last(), b.drop_last());
        assert(scalars_wf(a0) && scalars_wf(b0));
        lemma_concat_len(a0);
        lemma_concat_len(b0);
        let k = concat_scalars(a0).len();
        let c = concat_scalars(a);
        assert(c.subrange(0, k as int) =~= concat_scalars(a0));
        assert(concat_scalars(b).subrange(0, k as int) =~= concat_scalars(b0));
        assert(c.subrange(k as int, c.len() as int) =~= a.last()@);
        assert(concat_scalars(b).subrange(k as int, c.len() as int) =~= b.last()@);
        lemma_concat_injective(a0, b0);
        assert forall|i: int| 0 <= i < a.len() implies scalar_views(a)[i] == scalar_views(b)[i] by {
            if i < a.len() - 1 {
                assert(scalar_views(a0)[i] == scalar_views(b0)[i]);
            }
        }
        assert(scalar_views(a) =~= scalar_views(b));
    } else {
        assert(scalar_views(a) =~= scalar_views(b));
    }
}

/// Reads a `u32` at `pos`.
pub fn read_u32(buf: &Vec<u8>, pos: usize) -> (r: Option<(u32, usize)>)
    ensures
        r matches Some((v, n)) ==> n == pos + 4 && n <= buf@.len() && buf@.subrange(
            pos as int,
            n as int,
        ) == enc_u32(v),
        forall|v: u32|
            pos + 4 <= buf@.len() && buf@.subrange(pos as int, pos + 4) == #[trigger] enc_u32(v)
                ==> r == Some((v, (pos + 4) as usize)),
{
    if pos > buf.len() || buf.len() - pos < 4 {
        return None;
    }
    let v = (buf[pos] as u32) | ((buf[pos + 1] as u32) << 8u32) | ((buf[pos + 2] as u32)
        << 16u32) | ((buf[pos + 3] as u32) << 24u32);
    proof {
        lemma_u32_bytes(buf[pos as int], buf[pos + 1], buf[pos + 2], buf[pos + 3]);
        assert(buf@.subrange(pos as int, pos + 4) =~= seq![buf[pos as int], buf[pos + 1], buf[pos + 2], buf[pos + 3]]);
        assert forall|w: u32|
            buf@.subrange(pos as int, pos + 4) == #[trigger] enc_u32(w) implies w == v by {
            lemma_u32_round_trip(w);
            assert(enc_u32(w)[0] == buf[pos as int] && enc_u32(w)[1] == buf[pos + 1] && enc_u32(w)[2] == buf[pos + 2] && enc_u32(w)[3] == buf[pos + 3]);
        }
    }
    Some((v, pos + 4))
}

/// Reads a `u64` at `pos`.
pub fn read_u64(buf: &Vec<u8>, pos: usize) -> (r: Option<(u64, usize)>)
    ensures
        r matches Some((v, n)) ==> n == pos + 8 && n <= buf@.len() && buf@.subrange(
            pos as int,
            n as int,
        ) == enc_u64(v),
        forall|v: u64|
            pos + 8 <= buf@.len() && buf@.subrange(pos as int, pos + 8) == #[trigger] enc_u64(v)
                ==> r == Some((v, (pos + 8) as usize)),
{
    if pos > buf.len() || buf.len() - pos < 8 {
        return None;
    }
    let v = (buf[pos] as u64) | ((buf[pos + 1] as u64) << 8u64) | ((buf[pos + 2] as u64)
        << 16u64) | ((buf[pos + 3] as u64) << 24u64) | ((buf[pos + 4] as u64) << 32u64) | ((buf[pos
        + 5] as u64) << 40u64) | ((buf[pos + 6] as u64) << 48u64) | ((buf[pos + 7] as u64)
        << 56u64);
    proof {
        assert(v == le_u64(buf@, pos as int));
        lemma_u64_bytes(buf@, pos as int);
        assert forall|w: u64|
            buf@.subrange(pos as int, pos + 8) == #[trigger] enc_u64(w) implies w == v by {
            lemma_u64_round_trip(w);
            let e = enc_u64(w);
            assert(e[0] == buf[pos as int] && e[1] == buf[pos + 1] && e[2] == buf[pos + 2] && e[3] == buf[pos + 3]);
            assert(e[4] == buf[pos + 4] && e[5] == buf[pos + 5] && e[6] == buf[pos + 6] && e[7] == buf[pos + 7]);
            assert(le_u64(e, 0) == le_u64(buf@, pos as int));
        }
    }
    Some((v, pos + 8))
}

/// Reads a flag at `pos`; a byte other than `0` or `1` is refused.
pub fn read_bool(buf: &Vec<u8>, pos: usize) -> (r: Option<(bool, usize)>)
    ensures
        r matches Some((v, n)) ==> n == pos + 1 && n <= buf@.len() && buf@.subrange(
            pos as int,
            n as int,
        ) == enc_bool(v),
        forall|v: bool|
            pos + 1 <= buf@.len() && buf@.subrange(pos as int, pos + 1) == #[trigger] enc_bool(v)
                ==> r == Some((v, (pos + 1) as usize)),
{
    if pos >= buf.len() {
        return None;
    }
    let b = buf[pos];
    proof {
        assert forall|v: bool|
            buf@.subrange(pos as int, pos + 1) == #[trigger] enc_bool(v) implies (b == 1u8) == v && b <= 1 by {
            assert(enc_bool(v)[0] == buf@.subrange(pos as int, pos + 1)[0]);
        }
    }
    if b > 1 {
        return None;
    }
    assert(buf@.subrange(pos as int, pos + 1) =~= enc_bool(b == 1));
    Some((b == 1, pos + 1))
}

/// Reads an optional byte at `pos`.
pub fn read_opt_u8(buf: &Vec<u8>, pos: usize) -> (r: Option<(Option<u8>, usize)>)
    ensures
        r matches Some((v, n)) ==> n == pos + enc_opt_u8(v).len() && n <= buf@.len()
            && buf@.subrange(pos as int, n as int) == enc_opt_u8(v),
        forall|v: Option<u8>|
            pos + enc_opt_u8(v).len() <= buf@.len() && buf@.subrange(
                pos as int,
                pos + enc_opt_u8(v).len(),
            ) == #[trigger] enc_opt_u8(v) ==> r == Some((v, (pos + enc_opt_u8(v).len()) as usize)),
{
    if pos >= buf.len() {
        return None;
    }
    let tag = buf[pos];
    proof {
        assert forall|v: Option<u8>|
            pos + enc_opt_u8(v).len() <= buf@.len() && buf@.subrange(pos as int, pos + enc_opt_u8(v).len())
                == #[trigger] enc_opt_u8(v) implies (tag == 0 && v is None) || (tag == 1 && v is Some
                && pos + 2 <= buf@.len() && v->Some_0 == buf[pos + 1]) by {
            assert(enc_opt_u8(v)[0] == buf@.subrange(pos as int, pos + enc_opt_u8(v).len())[0]);
            if v is Some {
                assert(enc_opt_u8(v)[1] == buf@.subrange(pos as int, pos + enc_opt_u8(v).len())[1]);
            }
        }
    }
    if tag == 0 {
        assert(buf@.subrange(pos as int, pos + 1) =~= enc_opt_u8(None));
        Some((None, pos + 1))
    } else if tag == 1 && buf.len() - pos >= 2 {
        let v = buf[pos + 1];
        assert(buf@.subrange(pos as int, pos + 2) =~= enc_opt_u8(Some(v)));
        Some((Some(v), pos + 2))
    } else {
        None
    }
}

/// Reads an optional `u64` at `pos`.
pub fn read_opt_u64(buf: &Vec<u8>, pos: usize) -> (r: Option<(Option<u64>, usize)>)
    ensures
        r matches Some((v, n)) ==> n == pos + enc_opt_u64(v).len() && n <= buf@.len()
            && buf@.subrange(pos as int, n as int) == enc_opt_u64(v),
        forall|v: Option<u64>|
            pos + enc_opt_u64(v).len() <= buf@.len() && buf@.subrange(
                pos as int,
                pos + enc_opt_u64(v).len(),
            ) == #[trigger] enc_opt_u64(v) ==> r == Some(
                (v, (pos + enc_opt_u64(v).len()) as usize),
            ),
{
    if pos >= buf.len() {
        return None;
    }
    let tag = buf[pos];
    proof {
        assert forall|v: Option<u64>|
            pos + enc_opt_u64(v).len() <= buf@.len() && buf@.subrange(pos as int, pos + enc_opt_u64(v).len())
                == #[trigger] enc_opt_u64(v) implies (tag == 0 && v is None) || (tag == 1 && v is Some
                && pos + 9 <= buf@.len() && buf@.subrange(pos + 1, pos + 9) == enc_u64(v->Some_0)) by {
            assert(enc_opt_u64(v)[0] == buf@.subrange(pos as int, pos + enc_opt_u64(v).len())[0]);
            if v is Some {
                assert(buf@.subrange(pos + 1, pos + 9) =~= buf@.subrange(pos as int, pos + 9).subrange(1, 9));
                assert(enc_opt_u64(v).subrange(1, 9) =~= enc_u64(v->Some_0));
            }
        }
    }
    if tag == 0 {
        assert(buf@.subrange(pos as int, pos + 1) =~= enc_opt_u64(None));
        Some((None, pos + 1))
    } else if tag == 1 {
        match read_u64(buf, pos + 1) {
            Some((v, n)) => {
                assert(buf@.subrange(pos as int, n as int) =~= enc_opt_u64(Some(v)));
                Some((Some(v), n))
            },
            None => None,
        }
    } else {
        None
    }
}


/// Copies `buf[pos..pos + len]`.
fn copy_range(buf: &Vec<u8>, pos: usize, len: usize) -> (r: Vec<u8>)
    requires
        pos + len <= buf@.len(),
    ensures
        r@ == buf@.subrange(pos as int, pos + len),
{
    let total = buf.len();
    let mut r: Vec<u8> = Vec::new();
    let mut j: usize = 0;
    while j < len
        invariant
            j <= len,
            pos + len <= buf@.len(),
            total == buf@.len(),
            r@ == buf@.subrange(pos as int, pos + j),
        decreases len - j,
    {
        r.push(buf[pos + j]);
        j += 1;
        assert(r@ =~= buf@.subrange(pos as int, pos + j));
    }
    r
}

/// Reads a count-prefixed sequence of scalars at `pos`.
pub fn read_scalars(buf: &Vec<u8>, pos: usize) -> (r: Option<(Vec<Vec<u8>>, usize)>)
    ensures
        r matches Some((v, n)) ==> scalars_wf(v@) && v@.len() <= u32::MAX && pos <= n <= buf@.len()
            && buf@.subrange(pos as int, n as int) == enc_scalars(v@),
        forall|s: Seq<Vec<u8>>|
            scalars_wf(s) && s.len() <= u32::MAX && pos + enc_scalars(s).len() <= buf@.len()
                && buf@.subrange(pos as int, pos + enc_scalars(s).len()) == #[trigger] enc_scalars(s)
                ==> (r matches Some((v, n)) && n == pos + enc_scalars(s).len() && scalar_views(v@)
                == scalar_views(s)),
{
    let (count, start) = match read_u32(buf, pos) {
        Some(x) => x,
        None => {
            proof {
                assert forall|s: Seq<Vec<u8>>|
                    scalars_wf(s) && s.len() <= u32::MAX && pos + enc_scalars(s).len() <= buf@.len()
                    && buf@.subrange(pos as int, pos + enc_scalars(s).len()) == #[trigger] enc_scalars(s) implies false by {
                    assert(buf@.subrange(pos as int, pos + 4) =~= buf@.subrange(pos as int, pos + enc_scalars(s).len()).subrange(0, 4));
                    assert(enc_scalars(s).subrange(0, 4) =~= enc_u32(s.len() as u32));
                }
            }
            return None;
        },
    };
    let mut out: Vec<Vec<u8>> = Vec::new();
    let mut p: usize = start;
    let mut i: u32 = 0;
    while i < count
        invariant
            start == pos + 4,
            start <= p <= buf@.len(),
            i <= count,
            out@.len() == i,
            scalars_wf(out@),
            p == start + SCALAR_LEN * i,
            buf@.subrange(start as int, p as int) == concat_scalars(out@),
            forall|v: u32|
                pos + 4 <= buf@.len() && buf@.subrange(pos as int, pos + 4) == #[trigger] enc_u32(v)
                    ==> v == count,
        decreases count - i,
    {
        if buf.len() - p < SCALAR_LEN {
            proof {
                assert forall|s: Seq<Vec<u8>>|
                    scalars_wf(s) && s.len() <= u32::MAX && pos + enc_scalars(s).len() <= buf@.len()
                    && buf@.subrange(pos as int, pos + enc_scalars(s).len()) == #[trigger] enc_scalars(s) implies false by {
                    assert(buf@.subrange(pos as int, pos + 4) =~= buf@.subrange(pos as int, pos + enc_scalars(s).len()).subrange(0, 4));
                    assert(enc_scalars(s).subrange(0, 4) =~= enc_u32(s.len() as u32));
                    assert(count == s.len());
                    lemma_concat_len(s);
                    assert(enc_scalars(s).len() == 4 + SCALAR_LEN * s.len());
                    assert(SCALAR_LEN * i + SCALAR_LEN <= SCALAR_LEN * s.len());
                }
            }
            return None;
        }
        let item = copy_range(buf, p, SCALAR_LEN);
        proof {
            let old_out = out@;
            assert(out@.push(item).drop_last() =~= old_out);
            assert(buf@.subrange(start as int, p + SCALAR_LEN) =~= buf@.subrange(start as int, p as int)
                + buf@.subrange(p as int, p + SCALAR_LEN));
        }
        out.push(item);
        p = p + SCALAR_LEN;
        i = i + 1;
    }
    proof {
        assert(buf@.subrange(pos as int, p as int) =~= buf@.subrange(pos as int, pos + 4) + buf@.subrange(start as int, p as int));
        assert forall|s: Seq<Vec<u8>>|
            scalars_wf(s) && s.len() <= u32::MAX && pos + enc_scalars(s).len() <= buf@.len()
                && buf@.subrange(pos as int, pos + enc_scalars(s).len()) == #[trigger] enc_scalars(s)
                implies p == pos + enc_scalars(s).len() && scalar_views(out@) == scalar_views(s) by {
            let e = enc_scalars(s);
            assert(buf@.subrange(pos as int, pos + 4) =~= buf@.subrange(pos as int, pos + e.len()).subrange(0, 4));
            assert(e.subrange(0, 4) =~= enc_u32(s.len() as u32));
            lemma_concat_len(s);
            assert(concat_scalars(s) =~= e.subrange(4, e.len() as int));
            assert(buf@.subrange(start as int, p as int) =~= buf@.subrange(pos as int, pos + e.len()).subrange(4, e.len() as int));
            lemma_concat_injective(out@, s);
        }
    }
    Some((out, p))
}

/// Reads a length-prefixed byte string at `pos`.
pub fn read_bytes(buf: &Vec<u8>, pos: usize) -> (r: Option<(Vec<u8>, usize)>)
    ensures
        r matches Some((v, n)) ==> v@.len() <= u32::MAX && pos <= n <= buf@.len()
            && buf@.subrange(pos as int, n as int) == enc_bytes(v@),
        forall|b: Seq<u8>|
            b.len() <= u32::MAX && pos + enc_bytes(b).len() <= buf@.len()
                && buf@.subrange(pos as int, pos + enc_bytes(b).len()) == #[trigger] enc_bytes(b)
                ==> (r matches Some((v, n)) && n == pos + enc_bytes(b).len() && v@ == b),
{
    let (len, start) = match read_u32(buf, pos) {
        Some(x) => x,
        None => {
            proof {
                assert forall|b: Seq<u8>|
                    b.len() <= u32::MAX && pos + enc_bytes(b).len() <= buf@.len()
                    && buf@.subrange(pos as int, pos + enc_bytes(b).len()) == #[trigger] enc_bytes(b) implies false by {
                    assert(buf@.subrange(pos as int, pos + 4) =~= buf@.subrange(pos as int, pos + enc_bytes(b).len()).subrange(0, 4));
                    assert(enc_bytes(b).subrange(0, 4) =~= enc_u32(b.len() as u32));
                }
            }
            return None;
        },
    };
    proof {
        assert forall|b: Seq<u8>|
            b.len() <= u32::MAX && pos + enc_bytes(b).len() <= buf@.len()
                && buf@.subrange(pos as int, pos + enc_bytes(b).len()) == #[trigger] enc_bytes(b)
                implies b.len() == len && buf@.subrange(start as int, start + len) == b by {
            let e = enc_bytes(b);
            assert(buf@.subrange(pos as int, pos + 4) =~= buf@.subrange(pos as int, pos + e.len()).subrange(0, 4));
            assert(e.subrange(0, 4) =~= enc_u32(b.len() as u32));
            assert(b =~= e.subrange(4, e.len() as int));
            assert(buf@.subrange(start as int, start + b.len()) =~= buf@.subrange(pos as int, pos + e.len()).subrange(4, e.len() as int));
        }
    }
    if buf.len() - start < len as usize {
        return None;
    }
    let v = copy_range(buf, start, len as usize);
    let n = start + len as usize;
    assert(buf@.subrange(pos as int, n as int) =~= buf@.subrange(pos as int, start as int) + v@);
    Some((v, n))
}


/// A buffer that holds `a + b` at `p` holds `a` at `p` and `b` right after it.
pub proof fn lemma_split(buf: Seq<u8>, p: int, a: Seq<u8>, b: Seq<u8>)
    requires
        0 <= p,
        p + a.len() + b.len() <= buf.len(),
        buf.subrange(p, p + a.len() + b.len()) == a + b,
    ensures
        buf.subrange(p, p + a.len()) == a,
        buf.subrange(p + a.len(), p + a.len() + b.len()) == b,
{
    assert(buf.subrange(p, p + a.len()) =~= (a + b).subrange(0, a.len() as int));
    assert(buf.subrange(p + a.len(), p + a.len() + b.len()) =~= (a + b).subrange(
        a.len() as int,
        (a.len() + b.len()) as int,
    ));
}

/// Holding `a` at `p` and `b` right after it is holding `a + b` at `p`.
pub proof fn lemma_join(buf: Seq<u8>, p: int, q: int, n: int, a: Seq<u8>, b: Seq<u8>)
    requires
        0 <= p <= q <= n <= buf.len(),
        buf.subrange(p, q) == a,
        buf.subrange(q, n) == b,
    ensures
        buf.subrange(p, n) == a + b,
{
    assert(buf.subrange(p, n) =~= buf.subrange(p, q) + buf.subrange(q, n));
}

/// Appends the bytes of a scalar as they are.
pub fn push_scalar(out: &mut Vec<u8>, s: &Vec<u8>)
    ensures
        final(out)@ == old(out)@ + s@,
{
    let mut j: usize = 0;
    while j < s.len()
        invariant
            j <= s@.len(),
            out@ == old(out)@ + s@.subrange(0, j as int),
        decreases s@.len() - j,
    {
        out.push(s[j]);
        j += 1;
        assert(out@ =~= old(out)@ + s@.subrange(0, j as int));
    }
    assert(s@.subrange(0, j as int) =~= s@);
}

/// Reads one scalar, its bytes as they are, at `pos`.
pub fn read_scalar(buf: &Vec<u8>, pos: usize) -> (r: Option<(Vec<u8>, usize)>)
    ensures
        r matches Some((v, n)) ==> v@.len() == SCALAR_LEN && n == pos + SCALAR_LEN && n
            <= buf@.len() && buf@.subrange(pos as int, n as int) == v@,
        r is None <==> pos + SCALAR_LEN > buf@.len(),
{
    if pos > buf.len() || buf.len() - pos < SCALAR_LEN {
        return None;
    }
    let v = copy_range(buf, pos, SCALAR_LEN);
    Some((v, pos + SCALAR_LEN))
}

} // verus!
