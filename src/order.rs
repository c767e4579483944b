//! The order in which pixels are rendered and written: row by row from the
//! top of the image, left to right in each row; and the fact that rendering
//! batches in cycles of worker threads keeps that order.
use vstd::prelude::*;
use vstd::seq_lib::lemma_flatten_concat;
use crate::params::ThreadParameters;
use crate::schedule::{LineBatch, batch_lines, batches_below, chunks, schedule, sequential_lines};

verus! {

/// The pixels of scanline `line` from left to right, as (column, line).
pub open spec fn row_pixels(line: usize, width: nat) -> Seq<(usize, usize)> {
    Seq::new(width, |i: int| (i as usize, line))
}

/// The pixels of the scanlines `lines`, one scanline after the other.
pub open spec fn pixels_of_lines(lines: Seq<usize>, width: nat) -> Seq<(usize, usize)> {
    lines.map_values(|j: usize| row_pixels(j, width)).flatten()
}

/// The scanlines of the batches, one batch after the other.
pub open spec fn lines_of_batches(batches: Seq<LineBatch>) -> Seq<usize> {
    batches.map_values(|b: LineBatch| batch_lines(b)).flatten()
}

/// The pixels that the batches yield, one batch after the other: what is
/// written when each batch's result is written out in turn.
pub open spec fn pixels_of_batches(batches: Seq<LineBatch>, width: nat) -> Seq<(usize, usize)> {
    batches.map_values(|b: LineBatch| pixels_of_lines(batch_lines(b), width)).flatten()
}

/// The pixels of a batch in the order its worker renders them: its
/// scanlines from the top down, each from left to right.
pub fn batch_pixels(batch: &LineBatch, image_width: usize) -> (r: Vec<(usize, usize)>)
    requires
        batch.line_idx + batch.num_lines <= usize::MAX,
    ensures
        r@ == pixels_of_lines(batch_lines(*batch), image_width as nat),
{
    let ghost lines = batch_lines(*batch);
    let ghost f = |j: usize| row_pixels(j, image_width as nat);
    let mut r: Vec<(usize, usize)> = Vec::new();
    let mut k: usize = 0;
    while k < batch.num_lines
        invariant
            k <= batch.num_lines,
            batch.line_idx + batch.num_lines <= usize::MAX,
            lines == batch_lines(*batch),
            f == (|j: usize| row_pixels(j, image_width as nat)),
            r@ == lines.take(k as int).map_values(f).flatten(),
        decreases batch.num_lines - k,
    {
        let line = batch.line_idx + batch.num_lines - 1 - k;
        let mut i: usize = 0;
        let ghost before = r@;
        while i < image_width
            invariant
                i <= image_width,
                r@ == before + row_pixels(line, image_width as nat).take(i as int),
            decreases image_width - i,
        {
            r.push((i, line));
            assert(r@ =~= before + row_pixels(line, image_width as nat).take(i + 1));
            i = i + 1;
        }
        assert(row_pixels(line, image_width as nat).take(image_width as int) =~= row_pixels(
            line,
            image_width as nat,
        ));
        assert(lines.take(k + 1).map_values(f) =~= lines.take(k as int).map_values(f).push(
            f(line),
        ));
        proof {
            lines.take(k as int).map_values(f).lemma_flatten_push(f(line));
        }
        k = k + 1;
    }
    assert(lines.take(k as int) =~= lines);
    r
}

/// Cutting a sequence into groups and putting the groups back together
/// gives the sequence again.
pub proof fn lemma_chunks_flatten<A>(s: Seq<A>, n: nat)
    requires
        n >= 1,
    ensures
        chunks(s, n).flatten() == s,
    decreases s.len(),
{
    if s.len() > 0 {
        let m: int = if s.len() < n { s.len() as int } else { n as int };
        let head = seq![s.take(m)];
        lemma_chunks_flatten(s.skip(m), n);
        lemma_flatten_concat(head, chunks(s.skip(m), n));
        head.lemma_flatten_singleton();
        assert(s.take(m) + s.skip(m) =~= s);
    } else {
        assert(chunks(s, n).flatten() =~= s);
    }
}

/// Mapping a function over two sequences joined is joining the two mapped
/// sequences.
proof fn lemma_map_values_concat<A, B>(a: Seq<A>, b: Seq<A>, f: spec_fn(A) -> B)
    ensures
        (a + b).map_values(f) == a.map_values(f) + b.map_values(f),
{
    assert((a + b).map_values(f) =~= a.map_values(f) + b.map_values(f));
}

/// The batches cut from the lines `0 .. top` hold, one after the other,
/// the lines from `top - 1` down to `0`.
pub proof fn lemma_batches_below_lines(top: nat, lines: nat)
    requires
        lines >= 1,
        top <= usize::MAX,
    ensures
        lines_of_batches(batches_below(top, lines)) == sequential_lines(top),
    decreases top,
{
    let g = |b: LineBatch| batch_lines(b);
    if top == 0 {
        assert(lines_of_batches(batches_below(top, lines)) =~= sequential_lines(top));
    } else {
        let n: nat = if top < lines { top } else { lines };
        let b = LineBatch { line_idx: (top - n) as usize, num_lines: n as usize };
        let rest = batches_below((top - n) as nat, lines);
        lemma_batches_below_lines((top - n) as nat, lines);
        lemma_map_values_concat(seq![b], rest, g);
        lemma_flatten_concat(seq![b].map_values(g), rest.map_values(g));
        assert(seq![b].map_values(g) =~= seq![batch_lines(b)]);
        seq![batch_lines(b)].lemma_flatten_singleton();
        assert(batch_lines(b) + sequential_lines((top - n) as nat) =~= sequential_lines(top));
    }
}

/// The pixels of two runs of lines joined are the pixels of the first run,
/// then those of the second.
pub proof fn lemma_pixels_of_lines_concat(a: Seq<usize>, b: Seq<usize>, width: nat)
    ensures
        pixels_of_lines(a + b, width) == pixels_of_lines(a, width) + pixels_of_lines(b, width),
{
    let f = |j: usize| row_pixels(j, width);
    lemma_map_values_concat(a, b, f);
    lemma_flatten_concat(a.map_values(f), b.map_values(f));
}

/// Writing out the batches' pixels one batch after the other writes the
/// pixels of their lines in order.
pub proof fn lemma_pixels_of_batches(batches: Seq<LineBatch>, width: nat)
    ensures
        pixels_of_batches(batches, width) == pixels_of_lines(lines_of_batches(batches), width),
    decreases batches.len(),
{
    if batches.len() == 0 {
        assert(pixels_of_batches(batches, width) =~= Seq::<(usize, usize)>::empty());
        assert(lines_of_batches(batches) =~= Seq::<usize>::empty());
        assert(pixels_of_lines(Seq::<usize>::empty(), width) =~= Seq::<(usize, usize)>::empty());
    } else {
        let g = |b: LineBatch| batch_lines(b);
        let h = |b: LineBatch| pixels_of_lines(batch_lines(b), width);
        let b = batches[0];
        let rest = batches.drop_first();
        assert(batches =~= seq![b] + rest);
        lemma_pixels_of_batches(rest, width);
        lemma_map_values_concat(seq![b], rest, g);
        lemma_map_values_concat(seq![b], rest, h);
        lemma_flatten_concat(seq![b].map_values(g), rest.map_values(g));
        lemma_flatten_concat(seq![b].map_values(h), rest.map_values(h));
        assert(seq![b].map_values(g) =~= seq![batch_lines(b)]);
        assert(seq![b].map_values(h) =~= seq![pixels_of_lines(batch_lines(b), width)]);
        seq![batch_lines(b)].lemma_flatten_singleton();
        seq![pixels_of_lines(batch_lines(b), width)].lemma_flatten_singleton();
        lemma_pixels_of_lines_concat(batch_lines(b), lines_of_batches(rest), width);
    }
}

/// Rendering in cycles of worker threads keeps the line order: the batches
/// of all cycles, collected in plan order, hold the image's lines from the
/// top one down, each once, as a single thread renders them.
pub proof fn lemma_schedule_keeps_line_order(height: usize, p: ThreadParameters)
    requires
        p.num_threads >= 1,
        p.lines_per_thread >= 1,
    ensures
        lines_of_batches(schedule(height as nat, p).flatten()) == sequential_lines(height as nat),
{
    lemma_chunks_flatten(batches_below(height as nat, p.lines_per_thread as nat), p.num_threads as nat);
    lemma_batches_below_lines(height as nat, p.lines_per_thread as nat);
}

/// Rendering in cycles of worker threads keeps the pixel order: writing out
/// each batch's pixels, cycle after cycle and batch after batch in plan
/// order, writes the same sequence of pixels as a single thread that goes
/// from the top row down, left to right in each row.
pub proof fn lemma_schedule_keeps_pixel_order(height: usize, p: ThreadParameters, width: usize)
    requires
        p.num_threads >= 1,
        p.lines_per_thread >= 1,
    ensures
        pixels_of_batches(schedule(height as nat, p).flatten(), width as nat) == pixels_of_lines(
            sequential_lines(height as nat),
            width as nat,
        ),
{
    lemma_schedule_keeps_line_order(height, p);
    lemma_pixels_of_batches(schedule(height as nat, p).flatten(), width as nat);
}

} // verus!
