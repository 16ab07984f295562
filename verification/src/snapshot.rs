//! Canvas snapshot store: compresses a dumped rectangular region so it can be
//! restored later, decoupled from display timing.
//!
//! The codec is a byte run-length encoding: the compressed form is a sequence
//! of `(count, value)` pairs, each standing for `count` repetitions of
//! `value`, with runs capped at 255 bytes. Decompression is a pure function of
//! the stored bytes, and `lemma_snapshot_round_trip` proves the required law:
//! decompressing a capture gives back exactly the captured region.

use vstd::prelude::*;

verus! {

/// Length of the longest prefix of `s` whose bytes all equal `s[0]`.
pub open spec fn run_len(s: Seq<u8>) -> nat
    decreases s.len(),
{
    if s.len() == 0 {
        0
    } else if s.len() >= 2 && s[1] == s[0] {
        (1 + run_len(s.skip(1))) as nat
    } else {
        1
    }
}

/// The leading run, capped at the largest count one byte can carry.
pub open spec fn capped_run(s: Seq<u8>) -> nat {
    if run_len(s) <= 255 {
        run_len(s)
    } else {
        255
    }
}

/// Run-length encoding: `(count, value)` pairs, longest runs first, counts
/// capped at 255.
pub open spec fn rle_encode(s: Seq<u8>) -> Seq<u8>
    decreases s.len(),
    via rle_encode_decreases
{
    if s.len() == 0 {
        Seq::empty()
    } else {
        seq![capped_run(s) as u8, s[0]] + rle_encode(s.skip(capped_run(s) as int))
    }
}

#[via_fn]
proof fn rle_encode_decreases(s: Seq<u8>) {
    if s.len() > 0 {
        lemma_run_len_bounds(s);
    }
}

/// Run-length decoding. A dangling trailing byte (no value after a count)
/// decodes to nothing.
pub open spec fn rle_decode(s: Seq<u8>) -> Seq<u8>
    decreases s.len(),
{
    if s.len() < 2 {
        Seq::empty()
    } else {
        Seq::new(s[0] as nat, |i: int| s[1]) + rle_decode(s.skip(2))
    }
}

/// The leading run is well formed: it is non-empty, it fits in `s`, and every
/// byte in it equals the first.
pub proof fn lemma_run_len_bounds(s: Seq<u8>)
    requires
        s.len() > 0,
    ensures
        1 <= run_len(s) <= s.len(),
        forall|j: int| 0 <= j < run_len(s) ==> #[trigger] s[j] == s[0],
    decreases s.len(),
{
    if s.len() >= 2 && s[1] == s[0] {
        lemma_run_len_bounds(s.skip(1));
        assert forall|j: int| 0 <= j < run_len(s) implies #[trigger] s[j] == s[0] by {
            if j >= 1 {
                assert(s.skip(1)[j - 1] == s[j]);
            }
        }
    }
}

/// A prefix of equal bytes is no longer than the leading run.
proof fn lemma_run_len_ge(s: Seq<u8>, k: int)
    requires
        0 <= k <= s.len(),
        forall|j: int| 0 <= j < k ==> #[trigger] s[j] == s[0],
    ensures
        run_len(s) >= k,
    decreases s.len(),
{
    if k >= 2 {
        assert(s[1] == s[0]);
        assert forall|j: int| 0 <= j < k - 1 implies #[trigger] s.skip(1)[j] == s.skip(1)[0] by {
            assert(s.skip(1)[j] == s[j + 1]);
        }
        lemma_run_len_ge(s.skip(1), k - 1);
    }
}

/// A maximal prefix of equal bytes is exactly the leading run.
proof fn lemma_run_len_is(s: Seq<u8>, k: int)
    requires
        1 <= k <= s.len(),
        forall|j: int| 0 <= j < k ==> #[trigger] s[j] == s[0],
        k == s.len() || s[k] != s[0],
    ensures
        run_len(s) == k,
{
    lemma_run_len_ge(s, k);
    lemma_run_len_bounds(s);
    if run_len(s) > k {
        assert(s[k] == s[0]);
    }
}

/// Snapshot round trip: decoding an encoding of any raw region gives back
/// exactly that region.
pub proof fn lemma_snapshot_round_trip(raw: Seq<u8>)
    ensures
        rle_decode(rle_encode(raw)) == raw,
    decreases raw.len(),
{
    if raw.len() == 0 {
        assert(rle_decode(rle_encode(raw)) =~= raw);
    } else {
        lemma_run_len_bounds(raw);
        let k = capped_run(raw) as int;
        let enc = rle_encode(raw);
        let rest = raw.skip(k);
        assert(enc == seq![k as u8, raw[0]] + rle_encode(rest));
        assert(enc.skip(2) =~= rle_encode(rest));
        lemma_snapshot_round_trip(rest);
        assert(rle_decode(enc) == Seq::new(k as nat, |i: int| raw[0]) + rest);
        assert(rle_decode(enc) =~= raw) by {
            assert(forall|j: int| 0 <= j < k ==> #[trigger] raw[j] == raw[0]);
        }
    }
}

/// A compressed canvas region: the run-length encoded bytes of a rectangular
/// dump, together with the region's dimensions. Immutable once created.
pub struct CompressedCanvasState {
    pub data: Vec<u8>,
    pub height: u32,
    pub width: u32,
}

impl CompressedCanvasState {
    /// Compresses the supplied raw region into an immutable snapshot value.
    pub fn capture(raw: &[u8], height: u32, width: u32) -> (r: CompressedCanvasState)
        ensures
            r.data@ == rle_encode(raw@),
            r.height == height,
            r.width == width,
    {
        CompressedCanvasState { data: encode_bytes(raw), height, width }
    }

    /// Reconstructs the raw region; a fresh buffer, the stored bytes are kept.
    pub fn decompress(&self) -> (r: Vec<u8>)
        ensures
            r@ == rle_decode(self.data@),
    {
        decode_bytes(self.data.as_slice())
    }
}

/// Executable run-length encoder; matches `rle_encode` exactly.
fn encode_bytes(raw: &[u8]) -> (out: Vec<u8>)
    ensures
        out@ == rle_encode(raw@),
{
    let mut out: Vec<u8> = Vec::new();
    let mut i: usize = 0;
    proof {
        assert(raw@.skip(0) =~= raw@);
        assert(out@ + rle_encode(raw@) =~= rle_encode(raw@));
    }
    while i < raw.len()
        invariant
            i <= raw.len(),
            out@ + rle_encode(raw@.skip(i as int)) == rle_encode(raw@),
        decreases raw.len() - i,
    {
        let v = raw[i];
        let mut k: usize = 1;
        while i + k < raw.len() && k < 255 && raw[i + k] == v
            invariant
                i < raw.len(),
                1 <= k <= 255,
                i + k <= raw.len(),
                forall|j: int| i <= j < i + k ==> #[trigger] raw@[j] == v,
            decreases raw.len() - (i + k),
        {
            k = k + 1;
        }
        proof {
            let s = raw@.skip(i as int);
            assert forall|j: int| 0 <= j < k implies #[trigger] s[j] == s[0] by {
                assert(s[j] == raw@[j + i]);
                assert(s[0] == raw@[i as int]);
            }
            if k == 255 {
                lemma_run_len_ge(s, k as int);
                lemma_run_len_bounds(s);
            } else {
                if i + k < raw.len() {
                    assert(s[k as int] == raw@[i + k]);
                }
                lemma_run_len_is(s, k as int);
            }
            assert(capped_run(s) == k);
            assert(s.skip(k as int) =~= raw@.skip(i + k));
            assert(rle_encode(s) == seq![k as u8, v] + rle_encode(raw@.skip(i + k)));
            assert((out@ + seq![k as u8, v]) + rle_encode(raw@.skip(i + k))
                =~= out@ + rle_encode(raw@.skip(i as int)));
        }
        out.push(k as u8);
        out.push(v);
        i = i + k;
    }
    proof {
        assert(raw@.skip(i as int) =~= Seq::<u8>::empty());
        assert(out@ + rle_encode(raw@.skip(i as int)) =~= out@);
    }
    out
}

/// Executable run-length decoder; matches `rle_decode` exactly.
fn decode_bytes(data: &[u8]) -> (out: Vec<u8>)
    ensures
        out@ == rle_decode(data@),
{
    let mut out: Vec<u8> = Vec::new();
    let mut i: usize = 0;
    proof {
        assert(data@.skip(0) =~= data@);
        assert(out@ + rle_decode(data@) =~= rle_decode(data@));
    }
    while i < data.len() && i + 1 < data.len()
        invariant
            i <= data.len(),
            out@ + rle_decode(data@.skip(i as int)) == rle_decode(data@),
        decreases data.len() - i,
    {
        let k = data[i];
        let v = data[i + 1];
        let ghost out_before = out@;
        let mut c: usize = 0;
        while c < k as usize
            invariant
                c <= k as usize,
                out@ == out_before + Seq::new(c as nat, |j: int| v),
            decreases k as usize - c,
        {
            out.push(v);
            proof {
                assert(out@ =~= out_before + Seq::new((c + 1) as nat, |j: int| v));
            }
            c = c + 1;
        }
        proof {
            let s = data@.skip(i as int);
            assert(s.len() >= 2);
            assert(s[0] == k && s[1] == v);
            assert(s.skip(2) =~= data@.skip(i + 2));
            assert(rle_decode(s) == Seq::new(k as nat, |j: int| v) + rle_decode(data@.skip(i + 2)));
            assert((out_before + Seq::new(k as nat, |j: int| v)) + rle_decode(data@.skip(i + 2))
                =~= out_before + rle_decode(s));
        }
        i = i + 2;
    }
    proof {
        assert(rle_decode(data@.skip(i as int)) =~= Seq::<u8>::empty());
        assert(out@ + rle_decode(data@.skip(i as int)) =~= out@);
    }
    out
}

} // verus!
