//! The partition of an image's scanlines into batches, one per worker
//! thread, and of batches into cycles of at most as many batches as there
//! are workers; and the order in which pixels come out of it.
use vstd::prelude::*;
use crate::params::ThreadParameters;

verus! {

/// A run of consecutive scanlines that one worker renders: the lines
/// `line_idx .. line_idx + num_lines`, counted from the bottom of the image.
#[derive(Debug, Clone, Copy, PartialEq, Eq, Structural)]
pub struct LineBatch {
    /// The lowest scanline of the batch.
    pub line_idx: usize,
    /// How many scanlines the batch holds.
    pub num_lines: usize,
}

/// The scanlines of a batch in the order they are rendered: top one first.
pub open spec fn batch_lines(b: LineBatch) -> Seq<usize> {
    Seq::new(b.num_lines as nat, |k: int| (b.line_idx + b.num_lines - 1 - k) as usize)
}

/// The scanlines of an image of `height` lines as a single thread renders
/// them: from the top line down to line 0.
pub open spec fn sequential_lines(height: nat) -> Seq<usize> {
    Seq::new(height, |k: int| (height - 1 - k) as usize)
}

/// The lines `0 .. top` cut into batches of `lines` lines from the top
/// down; the last batch, at the bottom, takes what is left.
pub open spec fn batches_below(top: nat, lines: nat) -> Seq<LineBatch>
    decreases top,
{
    if top == 0 || lines == 0 {
        Seq::empty()
    } else {
        let n: nat = if top < lines { top } else { lines };
        seq![LineBatch { line_idx: (top - n) as usize, num_lines: n as usize }]
            + batches_below((top - n) as nat, lines)
    }
}

/// `s` cut into consecutive groups of `n` items; the last group takes what
/// is left.
pub open spec fn chunks<A>(s: Seq<A>, n: nat) -> Seq<Seq<A>>
    decreases s.len(),
{
    if s.len() == 0 || n == 0 {
        Seq::empty()
    } else {
        let m: int = if s.len() < n { s.len() as int } else { n as int };
        seq![s.take(m)] + chunks(s.skip(m), n)
    }
}

/// The cycles in which an image of `height` lines is rendered: batches of
/// `lines_per_thread` lines from the top down, grouped `num_threads` at a
/// time. Within a cycle the batches stand in the order they are started and
/// collected.
pub open spec fn schedule(height: nat, p: ThreadParameters) -> Seq<Seq<LineBatch>> {
    chunks(batches_below(height, p.lines_per_thread as nat), p.num_threads as nat)
}

/// The contents of each cycle.
pub open spec fn cycle_views(cycles: Seq<Vec<LineBatch>>) -> Seq<Seq<LineBatch>> {
    cycles.map_values(|c: Vec<LineBatch>| c@)
}

/// Cuts the lines `0 .. image_height` into batches of `lines_per_thread`
/// lines, top batch first.
pub fn line_batches(image_height: usize, lines_per_thread: usize) -> (r: Vec<LineBatch>)
    requires
        lines_per_thread >= 1,
    ensures
        r@ == batches_below(image_height as nat, lines_per_thread as nat),
{
    let mut r: Vec<LineBatch> = Vec::new();
    let mut top: usize = image_height;
    while top > 0
        invariant
            top <= image_height,
            lines_per_thread >= 1,
            batches_below(image_height as nat, lines_per_thread as nat) == r@ + batches_below(
                top as nat,
                lines_per_thread as nat,
            ),
        decreases top,
    {
        let n: usize = if top < lines_per_thread { top } else { lines_per_thread };
        let b = LineBatch { line_idx: top - n, num_lines: n };
        assert(r@.push(b) + batches_below((top - n) as nat, lines_per_thread as nat) =~= r@ + (
        seq![b] + batches_below((top - n) as nat, lines_per_thread as nat)));
        r.push(b);
        top = top - n;
    }
    assert(r@ + batches_below(0, lines_per_thread as nat) =~= r@);
    r
}

/// Groups `batches` into cycles of `num_threads` batches, in their order.
pub fn group_cycles(batches: &Vec<LineBatch>, num_threads: usize) -> (r: Vec<Vec<LineBatch>>)
    requires
        num_threads >= 1,
    ensures
        cycle_views(r@) == chunks(batches@, num_threads as nat),
{
    let mut r: Vec<Vec<LineBatch>> = Vec::new();
    let mut i: usize = 0;
    assert(batches@.skip(0) =~= batches@);
    assert(cycle_views(r@) + chunks(batches@, num_threads as nat) =~= chunks(
        batches@,
        num_threads as nat,
    ));
    while i < batches.len()
        invariant
            i <= batches.len(),
            num_threads >= 1,
            chunks(batches@, num_threads as nat) == cycle_views(r@) + chunks(
                batches@.skip(i as int),
                num_threads as nat,
            ),
        decreases batches.len() - i,
    {
        let end: usize = if batches.len() - i < num_threads { batches.len() } else { i + num_threads };
        let mut cycle: Vec<LineBatch> = Vec::new();
        let mut j: usize = i;
        while j < end
            invariant
                i <= j <= end <= batches.len(),
                cycle@ == batches@.subrange(i as int, j as int),
            decreases end - j,
        {
            cycle.push(batches[j]);
            assert(cycle@ =~= batches@.subrange(i as int, j + 1));
            j = j + 1;
        }
        let ghost rest = batches@.skip(i as int);
        assert(cycle@ =~= rest.take(end - i));
        assert(rest.skip(end - i) =~= batches@.skip(end as int));
        assert(cycle_views(r@.push(cycle)) =~= cycle_views(r@).push(cycle@));
        assert(cycle_views(r@.push(cycle)) + chunks(batches@.skip(end as int), num_threads as nat)
            =~= cycle_views(r@) + (seq![cycle@] + chunks(rest.skip(end - i), num_threads as nat)));
        r.push(cycle);
        i = end;
    }
    assert(chunks(batches@.skip(i as int), num_threads as nat) =~= Seq::<Seq<LineBatch>>::empty());
    assert(cycle_views(r@) + Seq::<Seq<LineBatch>>::empty() =~= cycle_views(r@));
    r
}

/// Plans the render of an image of `image_height` lines: the cycles, each
/// with the batches that its workers render, in the order in which they are
/// started and their results collected.
pub fn plan_cycles(image_height: usize, params: &ThreadParameters) -> (r: Vec<Vec<LineBatch>>)
    requires
        params.num_threads >= 1,
        params.lines_per_thread >= 1,
    ensures
        cycle_views(r@) == schedule(image_height as nat, *params),
{
    let batches = line_batches(image_height, params.lines_per_thread);
    group_cycles(&batches, params.num_threads)
}

/// Every batch cut from the lines `0 .. top` holds from one to `lines`
/// lines, all of them below `top`.
proof fn lemma_batches_below_shape(top: nat, lines: nat)
    requires
        lines >= 1,
        top <= usize::MAX,
    ensures
        forall|i: int|
            0 <= i < batches_below(top, lines).len() ==> {
                let b = #[trigger] batches_below(top, lines)[i];
                &&& 1 <= b.num_lines <= lines
                &&& b.line_idx + b.num_lines <= top
            },
    decreases top,
{
    if top > 0 {
        let n: nat = if top < lines { top } else { lines };
        let rest = batches_below((top - n) as nat, lines);
        lemma_batches_below_shape((top - n) as nat, lines);
        assert forall|i: int| 0 <= i < batches_below(top, lines).len() implies {
            let b = #[trigger] batches_below(top, lines)[i];
            &&& 1 <= b.num_lines <= lines
            &&& b.line_idx + b.num_lines <= top
        } by {
            if i > 0 {
                assert(batches_below(top, lines)[i] == rest[i - 1]);
            }
        }
    }
}

/// Every group has from one to `n` items, and the groups hold the items of
/// `s` in order.
proof fn lemma_chunks_shape<A>(s: Seq<A>, n: nat)
    requires
        n >= 1,
    ensures
        forall|k: int|
            0 <= k < chunks(s, n).len() ==> 1 <= (#[trigger] chunks(s, n)[k]).len() <= n,
    decreases s.len(),
{
    if s.len() > 0 {
        let m: int = if s.len() < n { s.len() as int } else { n as int };
        lemma_chunks_shape(s.skip(m), n);
        assert forall|k: int| 0 <= k < chunks(s, n).len() implies 1 <= (#[trigger] chunks(
            s,
            n,
        )[k]).len() <= n by {
            if k > 0 {
                assert(chunks(s, n)[k] == chunks(s.skip(m), n)[k - 1]);
            }
        }
    }
}

/// What holds of every item of `s` holds of every item of every group.
proof fn lemma_chunks_all<A>(s: Seq<A>, n: nat, pred: spec_fn(A) -> bool)
    requires
        n >= 1,
        forall|i: int| 0 <= i < s.len() ==> pred(#[trigger] s[i]),
    ensures
        forall|k: int, j: int|
            0 <= k < chunks(s, n).len() && 0 <= j < chunks(s, n)[k].len() ==> pred(
                #[trigger] chunks(s, n)[k][j],
            ),
    decreases s.len(),
{
    if s.len() > 0 {
        let m: int = if s.len() < n { s.len() as int } else { n as int };
        let rest = s.skip(m);
        assert forall|i: int| 0 <= i < rest.len() implies pred(#[trigger] rest[i]) by {
            assert(rest[i] == s[i + m]);
        }
        lemma_chunks_all(rest, n, pred);
        assert forall|k: int, j: int|
            0 <= k < chunks(s, n).len() && 0 <= j < chunks(s, n)[k].len() implies pred(
                #[trigger] chunks(s, n)[k][j],
            ) by {
            if k == 0 {
                assert(chunks(s, n)[k][j] == s[j]);
            } else {
                assert(chunks(s, n)[k] == chunks(rest, n)[k - 1]);
            }
        }
    }
}

/// The shape of a plan: each cycle starts from one to `num_threads`
/// workers, and each batch holds from one to `lines_per_thread` lines of
/// the image.
pub proof fn lemma_schedule_shape(height: usize, p: ThreadParameters)
    requires
        p.num_threads >= 1,
        p.lines_per_thread >= 1,
    ensures
        forall|k: int|
            0 <= k < schedule(height as nat, p).len() ==> 1 <= (#[trigger] schedule(
                height as nat,
                p,
            )[k]).len() <= p.num_threads,
        forall|k: int, j: int|
            0 <= k < schedule(height as nat, p).len() && 0 <= j < schedule(height as nat, p)[k].len()
                ==> {
                let b = #[trigger] schedule(height as nat, p)[k][j];
                &&& 1 <= b.num_lines <= p.lines_per_thread
                &&& b.line_idx + b.num_lines <= height
            },
{
    let all = batches_below(height as nat, p.lines_per_thread as nat);
    lemma_chunks_shape(all, p.num_threads as nat);
    lemma_batches_below_shape(height as nat, p.lines_per_thread as nat);
    let pred = |b: LineBatch|
        1 <= b.num_lines <= p.lines_per_thread && b.line_idx + b.num_lines <= height;
    lemma_chunks_all(all, p.num_threads as nat, pred);
}

} // verus!
