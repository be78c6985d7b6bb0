//! The option loop shared by the tools: leading arguments that start with a
//! dash are bundles of one-byte flags, until an argument that does not start
//! with a dash, or until a bundle that holds a second dash (`--`).

use vstd::prelude::*;

use crate::bytes::{ascii, push_ascii, push_bytes};

verus! {

/// The byte `-`.
pub open spec fn dash() -> u8 {
    '-' as u8
}

/// An argument that the option loop takes as a bundle of flags.
pub open spec fn is_option_word(a: Seq<u8>) -> bool {
    a.len() >= 1 && a[0] == dash()
}

/// A bundle that holds a dash after its first byte ends the options: no later
/// argument is a bundle of flags.
pub open spec fn ends_options(a: Seq<u8>) -> bool {
    exists|j: int| 1 <= j < a.len() && a[j] == dash()
}

/// The index of the first operand when the option loop starts at `i`.
pub open spec fn operands_start(args: Seq<Seq<u8>>, i: int) -> int
    decreases args.len() - i,
{
    if i >= args.len() || !is_option_word(args[i]) {
        i
    } else if ends_options(args[i]) {
        i + 1
    } else {
        operands_start(args, i + 1)
    }
}

/// Byte `j` of argument `i` is a flag byte of a bundle that the loop reads:
/// the loop starts at `from` and the operands at `end`.
pub open spec fn is_flag_byte(args: Seq<Seq<u8>>, from: int, end: int, i: int, j: int) -> bool {
    from <= i < end && 1 <= j < args[i].len()
}

/// The flag byte at `(i, j)` is neither a dash nor one of the `known` flags.
pub open spec fn is_unknown_flag(args: Seq<Seq<u8>>, known: Seq<u8>, i: int, j: int) -> bool {
    args[i][j] != dash() && !known.contains(args[i][j])
}

/// `(i, j)` is an unknown flag byte read by the loop that starts at `from`.
pub open spec fn unknown_at(args: Seq<Seq<u8>>, from: int, known: Seq<u8>, i: int, j: int) -> bool {
    is_flag_byte(args, from, operands_start(args, from), i, j) && is_unknown_flag(args, known, i, j)
}

/// `(i, j)` is the first unknown flag byte that the loop reads, in the order
/// of the arguments and of their bytes.
pub open spec fn first_unknown_at(
    args: Seq<Seq<u8>>,
    from: int,
    known: Seq<u8>,
    i: int,
    j: int,
) -> bool {
    &&& unknown_at(args, from, known, i, j)
    &&& forall|i2: int, j2: int|
        (i2 < i || (i2 == i && j2 < j)) ==> !unknown_at(args, from, known, i2, j2)
}

/// The loop that starts at `from` reads the flag byte `c` somewhere.
pub open spec fn flag_given(args: Seq<Seq<u8>>, from: int, c: u8) -> bool {
    exists|i: int, j: int|
        is_flag_byte(args, from, operands_start(args, from), i, j) && args[i][j] == c
}

/// The loop that starts at `from` reads a byte that is neither a dash nor a
/// known flag.
pub open spec fn has_unknown(args: Seq<Seq<u8>>, from: int, known: Seq<u8>) -> bool {
    exists|i: int, j: int| unknown_at(args, from, known, i, j)
}

/// `c` is the first byte that the loop that starts at `from` reads and that
/// is neither a dash nor a known flag.
pub open spec fn first_unknown_is(args: Seq<Seq<u8>>, from: int, known: Seq<u8>, c: u8) -> bool {
    exists|i: int, j: int| first_unknown_at(args, from, known, i, j) && args[i][j] == c
}

/// Why a command line was refused.
#[derive(Debug)]
pub enum ArgsError {
    /// A flag byte that the tool does not know: the tool reports it and
    /// prints its usage.
    UnknownOption(u8),
    /// The operands do not fit the tool: it prints its usage.
    Usage,
}

/// Where the operands start: every argument from `from` up to there starts
/// with a dash, none but the last of them holds a second dash, and the
/// argument there (if any) does not start with a dash unless the one before
/// it held a second dash.
pub proof fn law_operands_start(args: Seq<Seq<u8>>, from: int)
    requires
        0 <= from <= args.len(),
    ensures
        from <= operands_start(args, from) <= args.len(),
        forall|k: int|
            from <= k < operands_start(args, from) ==> #[trigger] args[k].len() >= 1 && args[k][0]
                == '-' as u8,
        forall|k: int|
            from <= k < operands_start(args, from) - 1 ==> !(exists|j: int|
                1 <= j < #[trigger] args[k].len() && args[k][j] == '-' as u8),
        ({
            let e = operands_start(args, from);
            let last = args[e - 1];
            ||| e == args.len()
            ||| !(args[e].len() >= 1 && args[e][0] == '-' as u8)
            ||| (e > from && exists|j: int| 1 <= j < last.len() && #[trigger] last[j] == '-' as u8)
        }),
    decreases args.len() - from,
{
    if from < args.len() && is_option_word(args[from]) {
        if ends_options(args[from]) {
            let w = args[from];
            let j = choose|j: int| 1 <= j < w.len() && w[j] == dash();
            assert(operands_start(args, from) == from + 1);
            assert(w[j] == '-' as u8);
        } else {
            law_operands_start(args, from + 1);
        }
    }
}

/// After `--`, no argument is read as flags: where the loop reaches an
/// argument `--` (every argument before it being a bundle of flags without a
/// second dash), the operands start right after it, even where they begin
/// with a dash.
pub proof fn law_double_dash_ends_options(args: Seq<Seq<u8>>, from: int, i: int)
    requires
        0 <= from <= i < args.len(),
        args[i] == seq![dash(), dash()],
        forall|k: int| from <= k < i ==> is_option_word(#[trigger] args[k]) && !ends_options(args[k]),
    ensures
        operands_start(args, from) == i + 1,
    decreases i - from,
{
    if from < i {
        assert(is_option_word(args[from]) && !ends_options(args[from]));
        law_double_dash_ends_options(args, from + 1, i);
    } else {
        assert(args[i][1] == dash());
    }
}

/// The arguments `b` from `q` on are those of `a` from `r` on.
spec fn same_tail(a: Seq<Seq<u8>>, r: int, b: Seq<Seq<u8>>, q: int) -> bool {
    &&& 0 <= r <= a.len()
    &&& 0 <= q <= b.len()
    &&& a.len() - r == b.len() - q
    &&& forall|k: int| 0 <= k < a.len() - r ==> #[trigger] b[q + k] == a[r + k]
}

proof fn lemma_operands_start_tail(a: Seq<Seq<u8>>, r: int, b: Seq<Seq<u8>>, q: int)
    requires
        same_tail(a, r, b, q),
    ensures
        operands_start(b, q) - q == operands_start(a, r) - r,
    decreases a.len() - r,
{
    if r < a.len() {
        assert(b[q + 0] == a[r + 0]);
        if is_option_word(a[r]) && !ends_options(a[r]) {
            assert forall|k: int| 0 <= k < a.len() - (r + 1) implies #[trigger] b[(q + 1) + k] == a[(
            r + 1) + k] by {
                assert(b[q + (k + 1)] == a[r + (k + 1)]);
            }
            lemma_operands_start_tail(a, r + 1, b, q + 1);
        }
    }
}

/// The command line `b` is `a` with the bundle at `p`, `-xy`, split into
/// the two bundles `-x` and `-y`.
pub open spec fn split_bundle(a: Seq<Seq<u8>>, p: int, x: Seq<u8>, y: Seq<u8>) -> Seq<Seq<u8>> {
    a.subrange(0, p) + seq![seq![dash()] + x, seq![dash()] + y] + a.subrange(p + 1, a.len() as int)
}

/// Flags may be bundled or given apart: splitting a bundle `-xy` that the
/// option loop reads into `-x -y` moves the operands by one argument and
/// changes neither the operands, nor which flags are given, nor whether an
/// unknown flag is given.
pub proof fn law_split_bundle(
    a: Seq<Seq<u8>>,
    from: int,
    p: int,
    x: Seq<u8>,
    y: Seq<u8>,
    known: Seq<u8>,
    c: u8,
)
    requires
        0 <= from <= p < a.len(),
        forall|k: int| from <= k < p ==> is_option_word(#[trigger] a[k]) && !ends_options(a[k]),
        a[p] == seq![dash()] + x + y,
        !x.contains(dash()),
        !y.contains(dash()),
    ensures
        ({
            let b = split_bundle(a, p, x, y);
            &&& operands_start(b, from) == operands_start(a, from) + 1
            &&& b.subrange(operands_start(b, from), b.len() as int) == a.subrange(
                operands_start(a, from),
                a.len() as int,
            )
            &&& flag_given(b, from, c) == flag_given(a, from, c)
            &&& has_unknown(b, from, known) == has_unknown(a, from, known)
        }),
{
    let b = split_bundle(a, p, x, y);
    lemma_split_operands(a, from, p, x, y);
    let ea = operands_start(a, from);
    let eb = operands_start(b, from);
    lemma_split_flag_bytes(a, from, p, x, y, ea, eb);
    lemma_split_given(a, from, p, x, y, c);
    lemma_split_unknown(a, from, p, x, y, known);
}

proof fn lemma_split_shape(a: Seq<Seq<u8>>, p: int, x: Seq<u8>, y: Seq<u8>)
    requires
        0 <= p < a.len(),
    ensures
        ({
            let b = split_bundle(a, p, x, y);
            &&& b.len() == a.len() + 1
            &&& forall|k: int| 0 <= k < p ==> #[trigger] b[k] == a[k]
            &&& b[p] == seq![dash()] + x
            &&& b[p + 1] == seq![dash()] + y
            &&& forall|k: int| p < k < a.len() ==> #[trigger] b[k + 1] == a[k]
        }),
{
}

proof fn lemma_no_second_dash(w: Seq<u8>, x: Seq<u8>, y: Seq<u8>)
    requires
        w == seq![dash()] + x + y,
        !x.contains(dash()),
        !y.contains(dash()),
    ensures
        !ends_options(w),
        !ends_options(seq![dash()] + x),
        !ends_options(seq![dash()] + y),
{
    if ends_options(w) {
        let j = choose|j: int| 1 <= j < w.len() && w[j] == dash();
        if j < 1 + x.len() {
            assert(x[j - 1] == w[j]);
        } else {
            assert(y[j - 1 - x.len()] == w[j]);
        }
    }
    let wx = seq![dash()] + x;
    if ends_options(wx) {
        let j = choose|j: int| 1 <= j < wx.len() && wx[j] == dash();
        assert(x[j - 1] == wx[j]);
    }
    let wy = seq![dash()] + y;
    if ends_options(wy) {
        let j = choose|j: int| 1 <= j < wy.len() && wy[j] == dash();
        assert(y[j - 1] == wy[j]);
    }
}

proof fn lemma_split_operands(a: Seq<Seq<u8>>, from: int, p: int, x: Seq<u8>, y: Seq<u8>)
    requires
        0 <= from <= p < a.len(),
        forall|k: int| from <= k < p ==> is_option_word(#[trigger] a[k]) && !ends_options(a[k]),
        a[p] == seq![dash()] + x + y,
        !x.contains(dash()),
        !y.contains(dash()),
    ensures
        ({
            let b = split_bundle(a, p, x, y);
            &&& p < operands_start(a, from) <= a.len()
            &&& operands_start(b, from) == operands_start(a, from) + 1
            &&& b.subrange(operands_start(b, from), b.len() as int) == a.subrange(
                operands_start(a, from),
                a.len() as int,
            )
        }),
{
    let b = split_bundle(a, p, x, y);
    lemma_split_shape(a, p, x, y);
    lemma_no_second_dash(a[p], x, y);
    lemma_prefix_operands_start(a, b, from, p);
    assert(is_option_word(a[p]));
    assert(b[p][0] == dash());
    assert(b[p + 1][0] == dash());
    assert(operands_start(a, p) == operands_start(a, p + 1));
    assert(operands_start(b, p) == operands_start(b, p + 1));
    assert(operands_start(b, p + 1) == operands_start(b, p + 2));
    assert forall|k: int| 0 <= k < a.len() - (p + 1) implies #[trigger] b[(p + 2) + k] == a[(p + 1)
        + k] by {
        assert(b[(p + 1 + k) + 1] == a[p + 1 + k]);
    }
    lemma_operands_start_tail(a, p + 1, b, p + 2);
    lemma_operands_start_bounds(a, p + 1);
    let ea = operands_start(a, from);
    let eb = operands_start(b, from);
    assert forall|k: int| 0 <= k < a.len() - ea implies #[trigger] b.subrange(eb, b.len() as int)[k]
        == a.subrange(ea, a.len() as int)[k] by {
        assert(b[(p + 2) + (ea + k - p - 1)] == a[(p + 1) + (ea + k - p - 1)]);
    }
    assert(b.subrange(eb, b.len() as int) =~= a.subrange(ea, a.len() as int));
}

proof fn lemma_split_given(a: Seq<Seq<u8>>, from: int, p: int, x: Seq<u8>, y: Seq<u8>, c: u8)
    requires
        ({
            let b = split_bundle(a, p, x, y);
            let ea = operands_start(a, from);
            let eb = operands_start(b, from);
            &&& forall|i: int, j: int|
                is_flag_byte(a, from, ea, i, j) ==> {
                    let (i2, j2) = split_position(p, x, i, j);
                    is_flag_byte(b, from, eb, i2, j2) && b[i2][j2] == a[i][j]
                }
            &&& forall|i: int, j: int|
                is_flag_byte(b, from, eb, i, j) ==> {
                    let (i2, j2) = join_position(p, x, i, j);
                    is_flag_byte(a, from, ea, i2, j2) && a[i2][j2] == b[i][j]
                }
        }),
    ensures
        flag_given(split_bundle(a, p, x, y), from, c) == flag_given(a, from, c),
{
    let b = split_bundle(a, p, x, y);
    let ea = operands_start(a, from);
    let eb = operands_start(b, from);
    if flag_given(a, from, c) {
        let (i, j) = choose|i: int, j: int| is_flag_byte(a, from, ea, i, j) && a[i][j] == c;
        let (i2, j2) = split_position(p, x, i, j);
        assert(is_flag_byte(b, from, eb, i2, j2) && b[i2][j2] == c);
    }
    if flag_given(b, from, c) {
        let (i, j) = choose|i: int, j: int| is_flag_byte(b, from, eb, i, j) && b[i][j] == c;
        let (i2, j2) = join_position(p, x, i, j);
        assert(is_flag_byte(a, from, ea, i2, j2) && a[i2][j2] == c);
    }
}

proof fn lemma_split_unknown(
    a: Seq<Seq<u8>>,
    from: int,
    p: int,
    x: Seq<u8>,
    y: Seq<u8>,
    known: Seq<u8>,
)
    requires
        ({
            let b = split_bundle(a, p, x, y);
            let ea = operands_start(a, from);
            let eb = operands_start(b, from);
            &&& forall|i: int, j: int|
                is_flag_byte(a, from, ea, i, j) ==> {
                    let (i2, j2) = split_position(p, x, i, j);
                    is_flag_byte(b, from, eb, i2, j2) && b[i2][j2] == a[i][j]
                }
            &&& forall|i: int, j: int|
                is_flag_byte(b, from, eb, i, j) ==> {
                    let (i2, j2) = join_position(p, x, i, j);
                    is_flag_byte(a, from, ea, i2, j2) && a[i2][j2] == b[i][j]
                }
        }),
    ensures
        has_unknown(split_bundle(a, p, x, y), from, known) == has_unknown(a, from, known),
{
    let b = split_bundle(a, p, x, y);
    if has_unknown(a, from, known) {
        let (i, j) = choose|i: int, j: int| unknown_at(a, from, known, i, j);
        let (i2, j2) = split_position(p, x, i, j);
        assert(unknown_at(b, from, known, i2, j2));
    }
    if has_unknown(b, from, known) {
        let (i, j) = choose|i: int, j: int| unknown_at(b, from, known, i, j);
        let (i2, j2) = join_position(p, x, i, j);
        assert(unknown_at(a, from, known, i2, j2));
    }
}

/// Where the flag byte `(i, j)` of the command line with the bundle at `p`
/// stands once the bundle is split after `x`.
spec fn split_position(p: int, x: Seq<u8>, i: int, j: int) -> (int, int) {
    if i < p {
        (i, j)
    } else if i == p {
        if j < 1 + x.len() {
            (p, j)
        } else {
            (p + 1, j - x.len())
        }
    } else {
        (i + 1, j)
    }
}

/// Where the flag byte `(i, j)` of the command line with the bundle split
/// after `x` stands in the command line with the bundle at `p` whole.
spec fn join_position(p: int, x: Seq<u8>, i: int, j: int) -> (int, int) {
    if i < p {
        (i, j)
    } else if i == p {
        (p, j)
    } else if i == p + 1 {
        (p, j + x.len())
    } else {
        (i - 1, j)
    }
}

proof fn lemma_prefix_operands_start(a: Seq<Seq<u8>>, b: Seq<Seq<u8>>, from: int, p: int)
    requires
        0 <= from <= p < a.len(),
        p < b.len(),
        forall|k: int| 0 <= k < p ==> #[trigger] b[k] == a[k],
        forall|k: int| from <= k < p ==> is_option_word(#[trigger] a[k]) && !ends_options(a[k]),
    ensures
        operands_start(a, from) == operands_start(a, p),
        operands_start(b, from) == operands_start(b, p),
    decreases p - from,
{
    if from < p {
        assert(b[from] == a[from]);
        assert(is_option_word(a[from]) && !ends_options(a[from]));
        lemma_prefix_operands_start(a, b, from + 1, p);
    }
}

proof fn lemma_split_flag_bytes(
    a: Seq<Seq<u8>>,
    from: int,
    p: int,
    x: Seq<u8>,
    y: Seq<u8>,
    ea: int,
    eb: int,
)
    requires
        0 <= from <= p < a.len(),
        p < ea <= a.len(),
        eb == ea + 1,
        a[p] == seq![dash()] + x + y,
    ensures
        ({
            let b = split_bundle(a, p, x, y);
            &&& forall|i: int, j: int|
                is_flag_byte(a, from, ea, i, j) ==> {
                    let (i2, j2) = split_position(p, x, i, j);
                    is_flag_byte(b, from, eb, i2, j2) && b[i2][j2] == a[i][j]
                }
            &&& forall|i: int, j: int|
                is_flag_byte(b, from, eb, i, j) ==> {
                    let (i2, j2) = join_position(p, x, i, j);
                    is_flag_byte(a, from, ea, i2, j2) && a[i2][j2] == b[i][j]
                }
        }),
{
    let b = split_bundle(a, p, x, y);
    lemma_split_shape(a, p, x, y);
    assert forall|i: int, j: int| is_flag_byte(a, from, ea, i, j) implies {
        let (i2, j2) = split_position(p, x, i, j);
        is_flag_byte(b, from, eb, i2, j2) && b[i2][j2] == a[i][j]
    } by {
        if i < p {
            assert(b[i] == a[i]);
        } else if i == p {
            if j < 1 + x.len() {
                assert(b[p] == seq![dash()] + x);
            } else {
                assert(b[p + 1] == seq![dash()] + y);
            }
        } else {
            assert(b[i + 1] == a[i]);
        }
    }
    assert forall|i: int, j: int| is_flag_byte(b, from, eb, i, j) implies {
        let (i2, j2) = join_position(p, x, i, j);
        is_flag_byte(a, from, ea, i2, j2) && a[i2][j2] == b[i][j]
    } by {
        if i < p {
            assert(b[i] == a[i]);
        } else if i == p {
            assert(b[p] == seq![dash()] + x);
        } else if i == p + 1 {
            assert(b[p + 1] == seq![dash()] + y);
        } else {
            assert(b[i] == a[i - 1]);
        }
    }
}

/// Among the flag bytes of the arguments `from..i`, and the bytes `1..j` of
/// argument `i`, there is one equal to `c`.
spec fn seen(args: Seq<Seq<u8>>, from: int, i: int, j: int, c: u8) -> bool {
    exists|i2: int, j2: int|
        ((from <= i2 < i && 1 <= j2 < args[i2].len()) || (i2 == i && 1 <= j2 < j))
            && #[trigger] args[i2][j2] == c
}

proof fn lemma_seen_next_byte(args: Seq<Seq<u8>>, from: int, i: int, j: int, c: u8)
    requires
        from <= i,
        1 <= j < args[i].len(),
    ensures
        seen(args, from, i, j + 1, c) <==> (seen(args, from, i, j, c) || args[i][j] == c),
{
    if seen(args, from, i, j + 1, c) {
        let (i2, j2) = choose|i2: int, j2: int|
            ((from <= i2 < i && 1 <= j2 < args[i2].len()) || (i2 == i && 1 <= j2 < j + 1))
                && #[trigger] args[i2][j2] == c;
        if !(i2 == i && j2 == j) {
            assert(((from <= i2 < i && 1 <= j2 < args[i2].len()) || (i2 == i && 1 <= j2 < j))
                && args[i2][j2] == c);
        }
    }
    if args[i][j] == c {
        assert(((from <= i < i && 1 <= j < args[i].len()) || (i == i && 1 <= j < j + 1))
            && args[i][j] == c);
    }
}

proof fn lemma_seen_next_arg(args: Seq<Seq<u8>>, from: int, i: int, c: u8)
    requires
        from <= i,
    ensures
        seen(args, from, i + 1, 1, c) <==> seen(args, from, i, args[i].len() as int, c),
{
    if seen(args, from, i + 1, 1, c) {
        let (i2, j2) = choose|i2: int, j2: int|
            ((from <= i2 < i + 1 && 1 <= j2 < args[i2].len()) || (i2 == i + 1 && 1 <= j2 < 1))
                && #[trigger] args[i2][j2] == c;
        assert(((from <= i2 < i && 1 <= j2 < args[i2].len()) || (i2 == i && 1 <= j2
            < args[i].len())) && args[i2][j2] == c);
    }
    if seen(args, from, i, args[i].len() as int, c) {
        let (i2, j2) = choose|i2: int, j2: int|
            ((from <= i2 < i && 1 <= j2 < args[i2].len()) || (i2 == i && 1 <= j2
                < args[i].len())) && #[trigger] args[i2][j2] == c;
        assert(((from <= i2 < i + 1 && 1 <= j2 < args[i2].len()) || (i2 == i + 1 && 1 <= j2
            < 1)) && args[i2][j2] == c);
    }
}

proof fn lemma_seen_is_given(args: Seq<Seq<u8>>, from: int, c: u8)
    ensures
        seen(args, from, operands_start(args, from), 1, c) <==> flag_given(args, from, c),
{
    let end = operands_start(args, from);
    if seen(args, from, end, 1, c) {
        let (i2, j2) = choose|i2: int, j2: int|
            ((from <= i2 < end && 1 <= j2 < args[i2].len()) || (i2 == end && 1 <= j2 < 1))
                && #[trigger] args[i2][j2] == c;
        assert(is_flag_byte(args, from, end, i2, j2) && args[i2][j2] == c);
    }
    if flag_given(args, from, c) {
        let (i2, j2) = choose|i2: int, j2: int|
            is_flag_byte(args, from, end, i2, j2) && args[i2][j2] == c;
        assert(((from <= i2 < end && 1 <= j2 < args[i2].len()) || (i2 == end && 1 <= j2 < 1))
            && args[i2][j2] == c);
    }
}

/// What the option loop found: where the operands start, and for each known
/// flag whether it was given.
pub struct OptionScan {
    pub operands: usize,
    pub present: Vec<bool>,
}

/// Marks every entry of `known` that equals `c` as present; returns the new
/// marks and whether there was such an entry.
fn mark_flag(present: &Vec<bool>, known: &Vec<u8>, c: u8) -> (r: (Vec<bool>, bool))
    requires
        present@.len() == known@.len(),
    ensures
        r.0@.len() == known@.len(),
        forall|k: int|
            0 <= k < known@.len() ==> (r.0@[k] <==> (present@[k] || known@[k] == c)),
        r.1 == known@.contains(c),
{
    let mut marked: Vec<bool> = Vec::new();
    let mut found = false;
    let mut k: usize = 0;
    while k < known.len()
        invariant
            k <= known@.len(),
            present@.len() == known@.len(),
            marked@.len() == k,
            forall|k2: int| 0 <= k2 < k ==> (marked@[k2] <==> (present@[k2] || known@[k2] == c)),
            found <==> exists|k2: int| 0 <= k2 < k && known@[k2] == c,
        decreases known@.len() - k,
    {
        if known[k] == c {
            marked.push(true);
            found = true;
        } else {
            marked.push(present[k]);
        }
        k = k + 1;
    }
    (marked, found)
}

proof fn lemma_operands_start_bounds(args: Seq<Seq<u8>>, i: int)
    requires
        0 <= i <= args.len(),
    ensures
        i <= operands_start(args, i) <= args.len(),
    decreases args.len() - i,
{
    if i < args.len() && is_option_word(args[i]) && !ends_options(args[i]) {
        lemma_operands_start_bounds(args, i + 1);
    }
}

/// Runs the option loop over `args` from index `from` (the program's name is
/// at index 0): each byte after the leading dash of a bundle is either a dash,
/// which makes this bundle the last one, or one of the `known` flags.
///
/// Fails with the first byte that is neither, in the order in which the loop
/// reads them. Otherwise returns where the operands start and, for each known
/// flag, whether it was given.
pub fn scan_options(args: &Vec<Vec<u8>>, from: usize, known: &Vec<u8>) -> (r: Result<
    OptionScan,
    u8,
>)
    requires
        from <= args@.len(),
        !known@.contains(dash()),
    ensures
        r is Err <==> has_unknown(args.deep_view(), from as int, known@),
        r matches Err(c) ==> first_unknown_is(args.deep_view(), from as int, known@, c),
        r matches Ok(scan) ==> {
            &&& scan.operands == operands_start(args.deep_view(), from as int)
            &&& from <= scan.operands <= args@.len()
            &&& scan.present@.len() == known@.len()
            &&& forall|k: int|
                0 <= k < known@.len() ==> (scan.present@[k] <==> flag_given(
                    args.deep_view(),
                    from as int,
                    known@[k],
                ))
        },
{
    let ghost a = args.deep_view();
    let ghost end = operands_start(a, from as int);
    proof {
        lemma_operands_start_bounds(a, from as int);
    }
    let mut present: Vec<bool> = Vec::new();
    let mut k: usize = 0;
    while k < known.len()
        invariant
            k <= known@.len(),
            present@.len() == k,
            forall|k2: int| 0 <= k2 < k ==> !present@[k2],
        decreases known@.len() - k,
    {
        present.push(false);
        k = k + 1;
    }
    let mut i: usize = from;
    let mut done = false;
    while i < args.len()
        invariant_except_break
            a == args.deep_view(),
            end == operands_start(a, from as int),
            from <= i <= args@.len(),
            i <= end,
            !done ==> end == operands_start(a, i as int),
            done ==> end == i,
            present@.len() == known@.len(),
            forall|i2: int, j2: int| i2 < i ==> !unknown_at(a, from as int, known@, i2, j2),
            !known@.contains(dash()),
            forall|k2: int|
                0 <= k2 < known@.len() ==> (present@[k2] <==> seen(a, from as int, i as int, 1, known@[k2])),
        ensures
            end == i,
            present@.len() == known@.len(),
            forall|i2: int, j2: int| i2 < i ==> !unknown_at(a, from as int, known@, i2, j2),
            forall|k2: int|
                0 <= k2 < known@.len() ==> (present@[k2] <==> seen(a, from as int, i as int, 1, known@[k2])),
        decreases args@.len() - i,
    {
        let arg = &args[i];
        if done || arg.len() == 0 || arg[0] != 45 {
            break;
        }
        assert(a[i as int] == arg@);
        assert(is_option_word(a[i as int]));
        proof {
            lemma_operands_start_bounds(a, i + 1);
        }
        let mut j: usize = 1;
        let mut saw_dash = false;
        while j < arg.len()
            invariant
                a == args.deep_view(),
                end == operands_start(a, from as int),
                from <= i < args@.len(),
                a[i as int] == arg@,
                i < end,
                !done,
                end == operands_start(a, i as int),
                1 <= j <= arg@.len(),
                present@.len() == known@.len(),
                saw_dash <==> exists|j2: int| 1 <= j2 < j && arg@[j2] == dash(),
                forall|i2: int, j2: int|
                    (i2 < i || (i2 == i && j2 < j)) ==> !unknown_at(a, from as int, known@, i2, j2),
                !known@.contains(dash()),
                forall|k2: int|
                    0 <= k2 < known@.len() ==> (present@[k2] <==> seen(a, from as int, i as int, j as int, known@[k2])),
            decreases arg@.len() - j,
        {
            let c = arg[j];
            if c == 45 {
                saw_dash = true;
            } else {
                let (marked, found) = mark_flag(&present, known, c);
                present = marked;
                if !found {
                    assert(unknown_at(a, from as int, known@, i as int, j as int));
                    assert(first_unknown_at(a, from as int, known@, i as int, j as int));
                    return Err(c);
                }
            }
            proof {
                assert forall|k2: int| 0 <= k2 < known@.len() implies (present@[k2] <==> seen(
                    a,
                    from as int,
                    i as int,
                    j + 1,
                    known@[k2],
                )) by {
                    lemma_seen_next_byte(a, from as int, i as int, j as int, known@[k2]);
                    if c == 45 {
                        assert(known@[k2] != dash());
                    }
                }
            }
            j = j + 1;
        }
        if saw_dash {
            done = true;
        }
        proof {
            assert forall|k2: int| 0 <= k2 < known@.len() implies (present@[k2] <==> seen(
                a,
                from as int,
                i + 1,
                1,
                known@[k2],
            )) by {
                lemma_seen_next_arg(a, from as int, i as int, known@[k2]);
            }
        }
        i = i + 1;
    }
    proof {
        assert forall|k2: int| 0 <= k2 < known@.len() implies (present@[k2] <==> flag_given(
            a,
            from as int,
            known@[k2],
        )) by {
            lemma_seen_is_given(a, from as int, known@[k2]);
        }
    }
    Ok(OptionScan { operands: i, present })
}

/// The UTF-8 bytes of `char::from(c)`, the character whose code point is
/// the byte `c`.
pub open spec fn byte_char_utf8(c: u8) -> Seq<u8> {
    if c < 0x80 {
        seq![c]
    } else {
        seq![(0xC0 + c / 64) as u8, (0x80 + c % 64) as u8]
    }
}

/// The line that reports the unknown flag `c`.
pub open spec fn unknown_option_text(c: u8) -> Seq<u8> {
    ascii("unknown option: -"@) + byte_char_utf8(c) + seq!['\n' as u8]
}

/// Returns the line that reports the unknown flag `c`: `unknown option: -`,
/// the character `c`, and a newline.
pub fn unknown_option_message(c: u8) -> (r: Vec<u8>)
    ensures
        r@ == unknown_option_text(c),
{
    let mut out: Vec<u8> = Vec::new();
    proof {
        reveal_strlit("unknown option: -");
    }
    push_ascii(&mut out, "unknown option: -");
    let ghost head = out@;
    if c < 0x80 {
        out.push(c);
    } else {
        out.push(0xC0 + c / 64);
        out.push(0x80 + c % 64);
    }
    out.push('\n' as u8);
    assert(out@ =~= head + byte_char_utf8(c) + seq!['\n' as u8]);
    out
}

/// A tool's usage text: a heading, the program's name `argv0`, and the
/// tool's `synopsis`.
pub open spec fn usage_text(argv0: Seq<u8>, synopsis: Seq<char>) -> Seq<u8> {
    ascii("USAGE\n\n  "@) + argv0 + ascii(synopsis)
}

/// Returns the usage text of a tool named `argv0` with this `synopsis`.
pub(crate) fn usage_message(argv0: &Vec<u8>, synopsis: &str) -> (r: Vec<u8>)
    requires
        vstd::string::is_ascii(synopsis),
    ensures
        r@ == usage_text(argv0@, synopsis@),
{
    let mut out: Vec<u8> = Vec::new();
    proof {
        reveal_strlit("USAGE\n\n  ");
    }
    push_ascii(&mut out, "USAGE\n\n  ");
    push_bytes(&mut out, argv0);
    push_ascii(&mut out, synopsis);
    assert(out@ =~= usage_text(argv0@, synopsis@));
    out
}

} // verus!
