//! Lacing: several frames in one Block.

use vstd::prelude::*;
use vstd::slice::{slice_subrange, slice_to_vec};
use crate::ebml::{read_vint, vint_at, vint_max, vint_max_of};
use crate::error::MkvError;
use crate::views::views;

verus! {

broadcast use crate::views::group_views;

/// The sum of sizes.
pub open spec fn total(sizes: Seq<int>) -> int
    decreases sizes.len(),
{
    if sizes.len() == 0 {
        0
    } else {
        total(sizes.drop_last()) + sizes.last()
    }
}

/// The pieces of `body` from `pos` on that have the given sizes.
pub open spec fn cut(body: Seq<u8>, pos: int, sizes: Seq<int>) -> Seq<Seq<u8>>
    decreases sizes.len(),
{
    if sizes.len() == 0 {
        Seq::empty()
    } else {
        cut(body, pos, sizes.drop_last()).push(
            body.subrange(pos + total(sizes.drop_last()), pos + total(sizes)),
        )
    }
}

/// The frames of a Block whose sizes are known but for the last frame, which takes what
/// is left.
pub open spec fn frames_of(body: Seq<u8>, pos: int, sizes: Seq<int>) -> Result<
    Seq<Seq<u8>>,
    MkvError,
> {
    if all_positive(sizes) && pos + total(sizes) <= body.len() {
        Ok(cut(body, pos, sizes.push(body.len() - pos - total(sizes))))
    } else {
        Err(MkvError::InvalidLacing)
    }
}

/// Whether no size is negative.
pub open spec fn all_positive(sizes: Seq<int>) -> bool {
    forall|i: int| 0 <= i < sizes.len() ==> #[trigger] sizes[i] >= 0
}

/// The sizes as numbers.
pub open spec fn ints(s: Seq<i128>) -> Seq<int> {
    s.map_values(|x: i128| x as int)
}

proof fn lemma_ints_push(s: Seq<i128>, x: i128)
    ensures
        ints(s.push(x)) == ints(s).push(x as int),
        ints(s.push(x)).drop_last() == ints(s),
{
    assert(ints(s.push(x)) =~= ints(s).push(x as int));
    assert(ints(s).push(x as int).drop_last() =~= ints(s));
}

proof fn lemma_total_bounds(sizes: Seq<int>, k: int)
    requires
        all_positive(sizes),
        0 <= k <= sizes.len(),
    ensures
        0 <= total(sizes.take(k)) <= total(sizes),
    decreases sizes.len(),
{
    if k == sizes.len() {
        assert(sizes.take(k) =~= sizes);
        if sizes.len() > 0 {
            let t = sizes.drop_last();
            assert(all_positive(t)) by {
                assert forall|i: int| 0 <= i < t.len() implies #[trigger] t[i] >= 0 by {
                    assert(sizes[i] >= 0);
                }
            }
            lemma_total_bounds(t, t.len() as int);
            assert(t.take(t.len() as int) =~= t);
            assert(sizes[sizes.len() - 1] >= 0);
        }
    } else {
        let t = sizes.drop_last();
        assert forall|i: int| 0 <= i < t.len() implies #[trigger] t[i] >= 0 by {
            assert(sizes[i] >= 0);
        }
        lemma_total_bounds(t, k);
        assert(t.take(k) =~= sizes.take(k));
        assert(sizes[sizes.len() - 1] >= 0);
    }
}

/// Cuts `body` from `pos` on into frames of the given sizes and a last one with what is
/// left.
fn cut_frames(body: &[u8], pos: usize, sizes: &Vec<i128>) -> (r: Result<Vec<Vec<u8>>, MkvError>)
    requires
        pos <= body@.len(),
        sizes@.len() <= 256,
    ensures
        match r {
            Ok(f) => frames_of(body@, pos as int, ints(sizes@)) == Ok::<Seq<Seq<u8>>, MkvError>(
                views(f@),
            ),
            Err(e) => frames_of(body@, pos as int, ints(sizes@)) == Err::<Seq<Seq<u8>>, MkvError>(
                e,
            ),
        },
{
    let ghost all = ints(sizes@);
    let len: usize = body.len();
    let mut frames: Vec<Vec<u8>> = Vec::new();
    let mut at: usize = pos;
    let mut k: usize = 0;
    assert(all.take(0) =~= Seq::<int>::empty());
    while k < sizes.len()
        invariant
            k <= sizes@.len(),
            all == ints(sizes@),
            pos <= at <= len,
            len == body@.len(),
            at == pos + total(all.take(k as int)),
            all_positive(all.take(k as int)),
            views(frames@) == cut(body@, pos as int, all.take(k as int)),
        decreases sizes@.len() - k,
    {
        let s: i128 = sizes[k];
        let ghost before = all.take(k as int);
        let ghost after = all.take(k + 1);
        proof {
            assert(after.drop_last() =~= before);
            assert(after.last() == s);
            assert(all[k as int] == s);
        }
        if s < 0 {
            return Err(MkvError::InvalidLacing);
        }
        if s > (len - at) as i128 {
            proof {
                if all_positive(all) {
                    lemma_total_bounds(all, k + 1);
                }
            }
            return Err(MkvError::InvalidLacing);
        }
        let end: usize = at + s as usize;
        frames.push(slice_to_vec(slice_subrange(body, at, end)));
        at = end;
        assert(all_positive(after)) by {
            assert forall|i: int| 0 <= i < after.len() implies #[trigger] after[i] >= 0 by {
                if i < k {
                    assert(before[i] >= 0);
                }
            }
        }
        k = k + 1;
    }
    proof {
        assert(all.take(k as int) =~= all);
        let last = body@.len() - pos - total(all);
        assert(all.push(last).drop_last() =~= all);
    }
    frames.push(slice_to_vec(slice_subrange(body, at, len)));
    Ok(frames)
}

/// Frames, one after the other.
pub open spec fn joined(frames: Seq<Seq<u8>>) -> Seq<u8>
    decreases frames.len(),
{
    if frames.len() == 0 {
        Seq::empty()
    } else {
        joined(frames.drop_last()) + frames.last()
    }
}

proof fn lemma_total_positive(sizes: Seq<int>)
    requires
        all_positive(sizes),
    ensures
        total(sizes) >= 0,
    decreases sizes.len(),
{
    if sizes.len() > 0 {
        assert(all_positive(sizes.drop_last())) by {
            assert forall|i: int| 0 <= i < sizes.drop_last().len()
                implies #[trigger] sizes.drop_last()[i]
                >= 0 by {
                assert(sizes.drop_last()[i] == sizes[i]);
            }
        }
        lemma_total_positive(sizes.drop_last());
    }
}

proof fn lemma_cut_joined(body: Seq<u8>, pos: int, sizes: Seq<int>)
    requires
        all_positive(sizes),
        0 <= pos,
        pos + total(sizes) <= body.len(),
    ensures
        cut(body, pos, sizes).len() == sizes.len(),
        joined(cut(body, pos, sizes)) == body.subrange(pos, pos + total(sizes)),
    decreases sizes.len(),
{
    if sizes.len() == 0 {
        assert(body.subrange(pos, pos) =~= Seq::<u8>::empty());
    } else {
        let rest = sizes.drop_last();
        assert(all_positive(rest)) by {
            assert forall|i: int| 0 <= i < rest.len() implies #[trigger] rest[i] >= 0 by {
                assert(rest[i] == sizes[i]);
            }
        }
        lemma_total_positive(rest);
        assert(sizes[sizes.len() - 1] >= 0);
        lemma_cut_joined(body, pos, rest);
        let f = cut(body, pos, sizes);
        assert(f.drop_last() =~= cut(body, pos, rest));
        assert(body.subrange(pos, pos + total(rest)) + body.subrange(
            pos + total(rest),
            pos + total(sizes),
        ) =~= body.subrange(pos, pos + total(sizes)));
    }
}

proof fn lemma_frames_joined(body: Seq<u8>, pos: int, sizes: Seq<int>)
    requires
        0 <= pos <= body.len(),
    ensures
        frames_of(body, pos, sizes) matches Ok(f) ==> f.len() == sizes.len() + 1 && joined(f)
            == body.skip(pos),
{
    if all_positive(sizes) && pos + total(sizes) <= body.len() {
        let last = body.len() - pos - total(sizes);
        let all = sizes.push(last);
        assert(all.drop_last() =~= sizes);
        assert(total(all) == body.len() - pos);
        lemma_cut_joined(body, pos, all);
        assert(body.subrange(pos, body.len() as int) =~= body.skip(pos));
    }
}

// ---------------------------------------------------------------------------
// Xiph lacing.

/// A size at `i` and where it ends: bytes of 255 and a last one below add up.
pub open spec fn xiph_size(body: Seq<u8>, i: int) -> Result<(int, int), MkvError>
    decreases body.len() - i,
{
    if i < 0 || i >= body.len() {
        Err(MkvError::InvalidLacing)
    } else if body[i] < 255 {
        Ok((body[i] as int, i + 1))
    } else {
        match xiph_size(body, i + 1) {
            Ok((s, j)) => Ok((255 + s, j)),
            Err(e) => Err(e),
        }
    }
}

/// `n` sizes from `i` on, and where they end.
pub open spec fn xiph_sizes(body: Seq<u8>, i: int, n: nat) -> Result<(Seq<int>, int), MkvError>
    decreases n,
{
    if n == 0 {
        Ok((Seq::empty(), i))
    } else {
        match xiph_sizes(body, i, (n - 1) as nat) {
            Err(e) => Err(e),
            Ok((s, j)) => match xiph_size(body, j) {
                Err(e) => Err(e),
                Ok((x, k)) => Ok((s.push(x), k)),
            },
        }
    }
}

/// The frames of a Block with Xiph lacing.
pub open spec fn xiph_frames(body: Seq<u8>) -> Result<Seq<Seq<u8>>, MkvError> {
    if body.len() == 0 {
        Ok(Seq::empty())
    } else {
        match xiph_sizes(body, 1, body[0] as nat) {
            Err(e) => Err(e),
            Ok((sizes, pos)) => frames_of(body, pos, sizes),
        }
    }
}

proof fn lemma_xiph_size_end(body: Seq<u8>, i: int)
    requires
        0 <= i,
    ensures
        xiph_size(body, i) matches Ok((_, j)) ==> i < j <= body.len(),
    decreases body.len() - i,
{
    if i < body.len() && body[i] == 255 {
        lemma_xiph_size_end(body, i + 1);
    }
}

proof fn lemma_xiph_sizes_end(body: Seq<u8>, i: int, n: nat)
    requires
        0 <= i <= body.len(),
    ensures
        xiph_sizes(body, i, n) matches Ok((s, j)) ==> s.len() == n && i + n <= j <= body.len(),
    decreases n,
{
    if n > 0 {
        lemma_xiph_sizes_end(body, i, (n - 1) as nat);
        if let Ok((s, j)) = xiph_sizes(body, i, (n - 1) as nat) {
            lemma_xiph_size_end(body, j);
        }
    }
}

/// Xiph lacing gives one frame more than its first byte says, and the frames are all that
/// follows the sizes, with nothing lost between them.
pub proof fn lemma_xiph_frames_joined(body: Seq<u8>)
    requires
        body.len() > 0,
    ensures
        xiph_frames(body) matches Ok(f) ==> f.len() == body[0] + 1 && (xiph_sizes(
            body,
            1,
            body[0] as nat,
        ) matches Ok((_, pos)) && joined(f) == body.skip(pos)),
{
    lemma_xiph_sizes_end(body, 1, body[0] as nat);
    if let Ok((sizes, pos)) = xiph_sizes(body, 1, body[0] as nat) {
        lemma_frames_joined(body, pos, sizes);
    }
}

/// Once a size cannot be read, neither can all the sizes that it is among.
proof fn lemma_xiph_sizes_stop(body: Seq<u8>, i: int, m: nat, n: nat, e: MkvError)
    requires
        m <= n,
        xiph_sizes(body, i, m) == Err::<(Seq<int>, int), MkvError>(e),
    ensures
        xiph_sizes(body, i, n) == Err::<(Seq<int>, int), MkvError>(e),
    decreases n,
{
    if m < n {
        lemma_xiph_sizes_stop(body, i, m, (n - 1) as nat, e);
    }
}

fn read_xiph_size(body: &[u8], start: usize) -> (r: Result<(i128, usize), MkvError>)
    ensures
        match r {
            Ok((s, j)) => xiph_size(body@, start as int) == Ok::<(int, int), MkvError>(
                (s as int, j as int),
            ) && start < j <= body@.len(),
            Err(e) => xiph_size(body@, start as int) == Err::<(int, int), MkvError>(e),
        },
{
    let mut s: i128 = 0;
    let mut i: usize = start;
    while i < body.len()
        invariant
            start <= i,
            i <= body@.len() || i == start,
            s == 255 * (i - start),
            xiph_size(body@, start as int) == (match xiph_size(body@, i as int) {
                Ok((t, j)) => Ok((s + t, j)),
                Err(e) => Err(e),
            }),
        decreases body@.len() - i,
    {
        let b: u8 = body[i];
        i = i + 1;
        s = s + b as i128;
        if b < 255 {
            return Ok((s, i));
        }
    }
    Err(MkvError::InvalidLacing)
}

/// The frames of a Block with Xiph lacing.
pub fn parse_xiph_lacing(body: &[u8]) -> (r: Result<Vec<Vec<u8>>, MkvError>)
    ensures
        match r {
            Ok(f) => xiph_frames(body@) == Ok::<Seq<Seq<u8>>, MkvError>(views(f@)),
            Err(e) => xiph_frames(body@) == Err::<Seq<Seq<u8>>, MkvError>(e),
        },
{
    if body.len() == 0 {
        return Ok(Vec::new());
    }
    let n: usize = body[0] as usize;
    let mut sizes: Vec<i128> = Vec::new();
    let mut i: usize = 1;
    let mut k: usize = 0;
    assert(ints(sizes@) =~= Seq::<int>::empty());
    while k < n
        invariant
            k <= n,
            n == body@[0],
            sizes@.len() == k,
            1 <= i <= body@.len(),
            body@.len() > 0,
            xiph_sizes(body@, 1, k as nat) == Ok::<(Seq<int>, int), MkvError>(
                (ints(sizes@), i as int),
            ),
        decreases n - k,
    {
        match read_xiph_size(body, i) {
            Ok((s, j)) => {
                proof {
                    lemma_ints_push(sizes@, s);
                }
                sizes.push(s);
                i = j;
            },
            Err(e) => {
                proof {
                    lemma_xiph_sizes_stop(body@, 1, (k + 1) as nat, n as nat, e);
                }
                return Err(e);
            },
        }
        k = k + 1;
    }
    cut_frames(body, i, &sizes)
}

// ---------------------------------------------------------------------------
// Fixed-size lacing.

/// The frames of a Block with fixed-size lacing: all of one size.
pub open spec fn fixed_frames(body: Seq<u8>) -> Result<Seq<Seq<u8>>, MkvError> {
    if body.len() == 0 {
        Ok(Seq::empty())
    } else {
        let n = body[0] as int + 1;
        let size = (body.len() - 1) / n;
        if (body.len() - 1) % n != 0 {
            Err(MkvError::InvalidLacing)
        } else {
            Ok(Seq::new(n as nat, |k: int| body.subrange(1 + k * size, 1 + (k + 1) * size)))
        }
    }
}

/// The frames of a Block with fixed-size lacing.
pub fn parse_fixed_lacing(body: &[u8]) -> (r: Result<Vec<Vec<u8>>, MkvError>)
    ensures
        match r {
            Ok(f) => fixed_frames(body@) == Ok::<Seq<Seq<u8>>, MkvError>(views(f@)),
            Err(e) => fixed_frames(body@) == Err::<Seq<Seq<u8>>, MkvError>(e),
        },
{
    if body.len() == 0 {
        return Ok(Vec::new());
    }
    let n: usize = body[0] as usize + 1;
    let len: usize = body.len();
    let payload: usize = len - 1;
    if payload % n != 0 {
        return Err(MkvError::InvalidLacing);
    }
    let size: usize = payload / n;
    assert(n * size == payload) by (nonlinear_arith)
        requires
            size == payload / n,
            payload % n == 0,
            n > 0,
    ;
    let mut frames: Vec<Vec<u8>> = Vec::new();
    let mut k: usize = 0;
    let mut at: usize = 1;
    while k < n
        invariant
            k <= n,
            n == body@[0] + 1,
            size == (body@.len() - 1) / (n as int),
            (body@.len() - 1) % (n as int) == 0,
            n * size == body@.len() - 1,
            at == 1 + k * size,
            len == body@.len(),
            len > 0,
            frames@.len() == k,
            forall|j: int|
                0 <= j < k ==> (#[trigger] frames@[j])@ == body@.subrange(
                    1 + j * size,
                    1 + (j + 1) * size,
                ),
        decreases n - k,
    {
        assert((k + 1) * size <= n * size) by (nonlinear_arith)
            requires
                k + 1 <= n,
        ;
        assert((k + 1) * size == k * size + size) by (nonlinear_arith);
        let end: usize = at + size;
        frames.push(slice_to_vec(slice_subrange(body, at, end)));
        at = end;
        k = k + 1;
    }
    assert(views(frames@) =~= fixed_frames(body@)->Ok_0);
    Ok(frames)
}

proof fn lemma_fixed_joined(body: Seq<u8>, n: int, size: int, k: int)
    requires
        0 <= k <= n,
        0 <= size,
        1 + n * size <= body.len(),
    ensures
        ({
            let f = Seq::new(
                k as nat,
                |i: int| body.subrange(1 + i * size, 1 + (i + 1) * size),
            );
            joined(f) == body.subrange(1, 1 + k * size)
        }),
    decreases k,
{
    let f = Seq::new(k as nat, |i: int| body.subrange(1 + i * size, 1 + (i + 1) * size));
    if k == 0 {
        assert(body.subrange(1, 1) =~= Seq::<u8>::empty());
    } else {
        let g = Seq::new((k - 1) as nat, |i: int| body.subrange(1 + i * size, 1 + (i + 1) * size));
        lemma_fixed_joined(body, n, size, k - 1);
        assert(f.drop_last() =~= g);
        assert(0 <= (k - 1) * size <= k * size <= n * size) by (nonlinear_arith)
            requires
                1 <= k <= n,
                0 <= size,
        ;
        assert(body.subrange(1, 1 + (k - 1) * size) + body.subrange(
            1 + (k - 1) * size,
            1 + k * size,
        ) =~= body.subrange(1, 1 + k * size));
    }
}

/// Fixed-size lacing gives one frame more than its first byte says, all of one size, and
/// the frames are all that follows that byte.
pub proof fn lemma_fixed_frames_joined(body: Seq<u8>)
    requires
        body.len() > 0,
    ensures
        fixed_frames(body) matches Ok(f) ==> f.len() == body[0] + 1 && joined(f) == body.skip(1),
{
    let n = body[0] as int + 1;
    let size = (body.len() - 1) / n;
    if (body.len() - 1) % n == 0 {
        assert(n * size == body.len() - 1) by (nonlinear_arith)
            requires
                size == (body.len() - 1) / n,
                (body.len() - 1) % n == 0,
                n > 0,
        ;
        assert(0 <= size) by (nonlinear_arith)
            requires
                n * size == body.len() - 1,
                body.len() >= 1,
                n > 0,
        ;
        lemma_fixed_joined(body, n, size, n);
        assert(body.subrange(1, body.len() as int) =~= body.skip(1));
    }
}

// ---------------------------------------------------------------------------
// EBML lacing.

/// A size as a signed number; one with all bits set is no size.
pub open spec fn signed_size(v: u64) -> int {
    if v == u64::MAX {
        -1
    } else {
        v as int
    }
}

/// Whether a size fits 63 bits and a sign.
pub open spec fn fits(x: int) -> bool {
    i64::MIN <= x <= i64::MAX
}

/// `n` sizes from `pos` on, each given by how much it differs from the one before, and
/// where they end.
pub open spec fn ebml_sizes(body: Seq<u8>, pos: int, first: int, n: nat) -> Result<
    (Seq<int>, int),
    MkvError,
>
    decreases n,
{
    if n == 0 {
        Ok((seq![first], pos))
    } else {
        match ebml_sizes(body, pos, first, (n - 1) as nat) {
            Err(e) => Err(e),
            Ok((s, p)) => match vint_at(body, p, false) {
                Err(e) => Err(e),
                Ok((raw, w)) => {
                    let next = s.last() + signed_size(raw) - vint_max(w) / 2;
                    if fits(next) {
                        Ok((s.push(next), p + w))
                    } else {
                        Err(MkvError::InvalidLacing)
                    }
                },
            },
        }
    }
}

/// How many differences a Block with EBML lacing holds.
pub open spec fn delta_count(count: u8) -> nat {
    if count == 0 {
        0
    } else {
        (count - 1) as nat
    }
}

/// The frames of a Block with EBML lacing.
pub open spec fn ebml_frames(body: Seq<u8>) -> Result<Seq<Seq<u8>>, MkvError> {
    if body.len() == 0 {
        Ok(Seq::empty())
    } else {
        match vint_at(body, 1, false) {
            Err(e) => Err(e),
            Ok((first, w)) => match ebml_sizes(
                body,
                1 + w,
                signed_size(first),
                delta_count(body[0]),
            ) {
                Err(e) => Err(e),
                Ok((sizes, pos)) => frames_of(body, pos, sizes),
            },
        }
    }
}

proof fn lemma_ebml_sizes_end(body: Seq<u8>, pos: int, first: int, n: nat)
    requires
        0 <= pos <= body.len(),
    ensures
        ebml_sizes(body, pos, first, n) matches Ok((s, p)) ==> s.len() == n + 1 && pos <= p
            <= body.len(),
    decreases n,
{
    if n > 0 {
        lemma_ebml_sizes_end(body, pos, first, (n - 1) as nat);
    }
}

/// EBML lacing gives one frame more than its first byte says, at least two, and the
/// frames are all that follows the sizes, with nothing lost between them.
pub proof fn lemma_ebml_frames_joined(body: Seq<u8>)
    requires
        body.len() > 0,
    ensures
        ebml_frames(body) matches Ok(f) ==> f.len() == delta_count(body[0]) + 2 && (exists|
            pos: int,
        |
            0 < pos <= body.len() && joined(f) == #[trigger] body.skip(pos)),
{
    if let Ok((first, w)) = vint_at(body, 1, false) {
        let n = delta_count(body[0]);
        lemma_ebml_sizes_end(body, 1 + w, signed_size(first), n);
        if let Ok((sizes, pos)) = ebml_sizes(body, 1 + w, signed_size(first), n) {
            lemma_frames_joined(body, pos, sizes);
        }
    }
}

/// Once a size cannot be read, neither can all the sizes that it is among.
proof fn lemma_ebml_sizes_stop(body: Seq<u8>, pos: int, first: int, m: nat, n: nat, e: MkvError)
    requires
        m <= n,
        ebml_sizes(body, pos, first, m) == Err::<(Seq<int>, int), MkvError>(e),
    ensures
        ebml_sizes(body, pos, first, n) == Err::<(Seq<int>, int), MkvError>(e),
    decreases n,
{
    if m < n {
        lemma_ebml_sizes_stop(body, pos, first, m, (n - 1) as nat, e);
    }
}

fn to_signed(v: u64) -> (r: i128)
    ensures
        r == signed_size(v),
{
    if v == 0xFFFF_FFFF_FFFF_FFFF {
        -1
    } else {
        v as i128
    }
}

/// The frames of a Block with EBML lacing.
pub fn parse_ebml_lacing(body: &[u8]) -> (r: Result<Vec<Vec<u8>>, MkvError>)
    ensures
        match r {
            Ok(f) => ebml_frames(body@) == Ok::<Seq<Seq<u8>>, MkvError>(views(f@)),
            Err(e) => ebml_frames(body@) == Err::<Seq<Seq<u8>>, MkvError>(e),
        },
{
    if body.len() == 0 {
        return Ok(Vec::new());
    }
    let n: usize = if body[0] == 0 {
        0
    } else {
        body[0] as usize - 1
    };
    let (first, w) = read_vint(body, 1, false)?;
    let ghost start = 1 + w as int;
    let mut pos: u64 = 1 + w;
    let mut last: i128 = to_signed(first);
    let mut sizes: Vec<i128> = Vec::new();
    proof {
        lemma_ints_push(sizes@, last);
        assert(ints(sizes@) =~= Seq::<int>::empty());
        assert(ints(sizes@).push(last as int) =~= seq![last as int]);
    }
    sizes.push(last);
    let mut k: usize = 0;
    while k < n
        invariant
            k <= n,
            n == delta_count(body@[0]),
            n <= 254,
            body@.len() > 0,
            vint_at(body@, 1, false) == Ok::<(u64, int), MkvError>((first, w as int)),
            start == 1 + w,
            sizes@.len() == k + 1,
            last == ints(sizes@).last(),
            k > 0 ==> fits(last as int),
            -1 <= last || k > 0,
            last <= u64::MAX,
            pos <= body@.len(),
            ebml_sizes(body@, start, signed_size(first), k as nat) == Ok::<
                (Seq<int>, int),
                MkvError,
            >((ints(sizes@), pos as int)),
        decreases n - k,
    {
        match read_vint(body, pos, false) {
            Ok((raw, v)) => {
                let bias: i128 = (vint_max_of(v) / 2) as i128;
                let next: i128 = last + to_signed(raw) - bias;
                if next < -0x8000_0000_0000_0000 || next > 0x7FFF_FFFF_FFFF_FFFF {
                    proof {
                        lemma_ebml_sizes_stop(
                            body@,
                            start,
                            signed_size(first),
                            (k + 1) as nat,
                            n as nat,
                            MkvError::InvalidLacing,
                        );
                    }
                    return Err(MkvError::InvalidLacing);
                }
                proof {
                    lemma_ints_push(sizes@, next);
                }
                sizes.push(next);
                last = next;
                pos = pos + v;
            },
            Err(e) => {
                proof {
                    lemma_ebml_sizes_stop(
                        body@,
                        start,
                        signed_size(first),
                        (k + 1) as nat,
                        n as nat,
                        e,
                    );
                }
                return Err(e);
            },
        }
        k = k + 1;
    }
    cut_frames(body, pos as usize, &sizes)
}

} // verus!
