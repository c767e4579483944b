//! Reading the worker-thread parameters from the command line.
use vstd::prelude::*;
use vstd::string::*;

verus! {

/// How the renderer spreads scanlines over worker threads.
#[derive(Debug, Clone, Copy, PartialEq, Eq, Structural)]
pub struct ThreadParameters {
    /// Number of worker threads that run at the same time.
    pub num_threads: usize,
    /// Number of consecutive scanlines each worker renders in one batch.
    pub lines_per_thread: usize,
}

/// Why the command line does not give usable thread parameters.
#[derive(Debug, Clone, Copy, PartialEq, Eq, Structural)]
pub enum ArgError {
    /// The first positional argument is not an unsigned integer.
    InvalidThreadCount,
    /// The second positional argument is not an unsigned integer.
    InvalidLinesPerThread,
}

/// Is `c` one of the ASCII digits `0` to `9`?
pub open spec fn is_digit(c: char) -> bool {
    '0' <= c && c <= '9'
}

/// The value of an ASCII digit.
pub open spec fn digit_value(c: char) -> nat {
    (c as u32 - '0' as u32) as nat
}

/// The value of a sequence of ASCII digits, most significant first.
pub open spec fn digits_value(s: Seq<char>) -> nat
    decreases s.len(),
{
    if s.len() == 0 {
        0
    } else {
        digits_value(s.drop_last()) * 10 + digit_value(s.last())
    }
}

/// The text of an unsigned number without its optional leading `+`.
pub open spec fn unsigned_digits(s: Seq<char>) -> Seq<char> {
    if s.len() > 0 && s[0] == '+' {
        s.skip(1)
    } else {
        s
    }
}

/// Does `s` read as an unsigned decimal number that fits in a `usize`:
/// an optional `+`, then one or more ASCII digits?
pub open spec fn parses_as_usize(s: Seq<char>) -> bool {
    let d = unsigned_digits(s);
    &&& d.len() > 0
    &&& forall|i: int| 0 <= i < d.len() ==> is_digit(#[trigger] d[i])
    &&& digits_value(d) <= usize::MAX
}

/// The number that `s` reads as, where `parses_as_usize(s)`.
pub open spec fn usize_value(s: Seq<char>) -> nat {
    digits_value(unsigned_digits(s))
}

/// A leading digit string is worth no more than the whole digit string.
proof fn lemma_digits_value_prefix(s: Seq<char>, k: int)
    requires
        0 <= k <= s.len(),
        forall|i: int| 0 <= i < s.len() ==> is_digit(#[trigger] s[i]),
    ensures
        digits_value(s.take(k)) <= digits_value(s),
    decreases s.len(),
{
    if k < s.len() {
        assert(s.drop_last().take(k) =~= s.take(k));
        lemma_digits_value_prefix(s.drop_last(), k);
    } else {
        assert(s.take(k) =~= s);
    }
}

/// Reads an unsigned decimal number as `str::parse::<usize>` does: an
/// optional `+`, then ASCII digits, with no sign, space or overflow.
pub fn parse_usize(s: &str) -> (r: Option<usize>)
    ensures
        r.is_some() <==> parses_as_usize(s@),
        r matches Some(v) ==> v as nat == usize_value(s@),
{
    let len = s.unicode_len();
    let start: usize = if len > 0 && s.get_char(0) == '+' { 1 } else { 0 };
    let ghost d = unsigned_digits(s@);
    assert(d =~= s@.skip(start as int));
    if start >= len {
        return None;
    }
    let mut value: usize = 0;
    let mut i: usize = start;
    while i < len
        invariant
            start <= i <= len,
            len == s@.len(),
            d == s@.skip(start as int),
            d == unsigned_digits(s@),
            forall|k: int| 0 <= k < i - start ==> is_digit(#[trigger] d[k]),
            value as nat == digits_value(d.take(i - start)),
        decreases len - i,
    {
        let c = s.get_char(i);
        if !('0' <= c && c <= '9') {
            assert(!is_digit(d[i - start]));
            return None;
        }
        let dv = (c as u32 - '0' as u32) as usize;
        assert(d.take(i + 1 - start).drop_last() =~= d.take(i - start));
        assert(d[i - start] == c);
        if value > (usize::MAX - dv) / 10 {
            proof {
                if forall|k: int| 0 <= k < d.len() ==> is_digit(#[trigger] d[k]) {
                    lemma_digits_value_prefix(d, i + 1 - start);
                }
            }
            return None;
        }
        value = value * 10 + dv;
        i = i + 1;
    }
    assert(d.take(len - start) =~= d);
    Some(value)
}

/// Is `a` a flag such as `--release`, which the thread parameters skip?
pub open spec fn is_flag(a: Seq<char>) -> bool {
    a.len() >= 2 && a[0] == '-' && a[1] == '-'
}

/// The text of each argument.
pub open spec fn arg_views(args: Seq<String>) -> Seq<Seq<char>> {
    args.map_values(|a: String| a@)
}

/// The arguments that are not flags, in their order.
pub open spec fn positional_args(args: Seq<Seq<char>>) -> Seq<Seq<char>>
    decreases args.len(),
{
    if args.len() == 0 {
        Seq::empty()
    } else {
        let rest = positional_args(args.drop_last());
        if is_flag(args.last()) {
            rest
        } else {
            rest.push(args.last())
        }
    }
}

/// Number of scanlines a worker takes when only the thread count is given.
pub const DEFAULT_LINES_PER_THREAD: usize = 4;

/// The thread parameters that the arguments (program name left out) ask for.
/// Flags are skipped. No positional argument means one thread rendering one
/// line at a time; one gives the thread count, with the default batch size;
/// two give the thread count and the batch size, and any further ones are
/// ignored.
pub open spec fn thread_parameters_of(args: Seq<Seq<char>>) -> Result<ThreadParameters, ArgError> {
    let p = positional_args(args);
    if p.len() == 0 {
        Ok(ThreadParameters { num_threads: 1, lines_per_thread: 1 })
    } else if !parses_as_usize(p[0]) {
        Err(ArgError::InvalidThreadCount)
    } else if p.len() == 1 {
        Ok(
            ThreadParameters {
                num_threads: usize_value(p[0]) as usize,
                lines_per_thread: DEFAULT_LINES_PER_THREAD,
            },
        )
    } else if !parses_as_usize(p[1]) {
        Err(ArgError::InvalidLinesPerThread)
    } else {
        Ok(
            ThreadParameters {
                num_threads: usize_value(p[0]) as usize,
                lines_per_thread: usize_value(p[1]) as usize,
            },
        )
    }
}

fn arg_is_flag(a: &str) -> (r: bool)
    ensures
        r == is_flag(a@),
{
    a.unicode_len() >= 2 && a.get_char(0) == '-' && a.get_char(1) == '-'
}

/// Reads the thread parameters from the command-line arguments that follow
/// the program name.
pub fn get_thread_parameters(args: &Vec<String>) -> (r: Result<ThreadParameters, ArgError>)
    ensures
        r == thread_parameters_of(arg_views(args@)),
{
    let ghost all = arg_views(args@);
    let mut pos: Vec<String> = Vec::new();
    let mut i: usize = 0;
    while i < args.len()
        invariant
            i <= args.len(),
            all == arg_views(args@),
            arg_views(pos@) == positional_args(all.take(i as int)),
        decreases args.len() - i,
    {
        assert(all.take(i + 1).drop_last() =~= all.take(i as int));
        assert(all.take(i + 1).last() == args@[i as int]@);
        if !arg_is_flag(args[i].as_str()) {
            let a = args[i].clone();
            assert(arg_views(pos@.push(a)) =~= arg_views(pos@).push(a@));
            pos.push(a);
        }
        i = i + 1;
    }
    assert(all.take(args.len() as int) =~= all);
    let ghost p = positional_args(all);
    assert(pos@.len() == p.len());
    if pos.len() == 0 {
        return Ok(ThreadParameters { num_threads: 1, lines_per_thread: 1 });
    }
    assert(pos@[0]@ == p[0]);
    let num_threads = match parse_usize(pos[0].as_str()) {
        Some(n) => n,
        None => return Err(ArgError::InvalidThreadCount),
    };
    if pos.len() == 1 {
        return Ok(ThreadParameters { num_threads, lines_per_thread: DEFAULT_LINES_PER_THREAD });
    }
    assert(pos@[1]@ == p[1]);
    let lines_per_thread = match parse_usize(pos[1].as_str()) {
        Some(n) => n,
        None => return Err(ArgError::InvalidLinesPerThread),
    };
    Ok(ThreadParameters { num_threads, lines_per_thread })
}

} // verus!
