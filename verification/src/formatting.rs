//! Formatting log messages in which a plain `{}` stands for an argument's
//! `Debug` rendering, so that values without `Display` (ids, vectors,
//! matrices) can be put into messages. The caller renders each argument
//! with `{:?}` and `{:#?}`; this module puts the renderings into the text.

use vstd::prelude::*;
use crate::text::{is_white_space, lemma_pieces_nonempty, pieces, pieces_from, push_char, push_str, split_on, chars_of};

verus! {

/// An argument as the formatter uses it: its `{:?}` and its `{:#?}` rendering.
pub struct FormatArg {
    pub debug: String,
    pub pretty: String,
}

/// The renderings of the arguments.
pub open spec fn args_view(args: Seq<FormatArg>) -> Seq<(Seq<char>, Seq<char>)> {
    args.map_values(|a: FormatArg| (a.debug@, a.pretty@))
}

/// The first position at or after `i` where `s` holds `c`.
pub open spec fn first_index_from(s: Seq<char>, c: char, i: int) -> Option<int>
    decreases s.len() - i,
{
    if i < 0 || i >= s.len() {
        None
    } else if s[i] == c {
        Some(i)
    } else {
        first_index_from(s, c, i + 1)
    }
}

/// The first position where `s` holds `c`.
pub open spec fn first_index(s: Seq<char>, c: char) -> Option<int> {
    first_index_from(s, c, 0)
}

/// `s` without its leading white space.
pub open spec fn trim_start(s: Seq<char>) -> Seq<char>
    decreases s.len(),
{
    if s.len() > 0 && is_white_space(s[0]) {
        trim_start(s.drop_first())
    } else {
        s
    }
}

/// `s` without its trailing white space.
pub open spec fn trim_end(s: Seq<char>) -> Seq<char>
    decreases s.len(),
{
    if s.len() > 0 && is_white_space(s.last()) {
        trim_end(s.drop_last())
    } else {
        s
    }
}

/// `s` without white space at either end, as `str::trim` gives it.
pub open spec fn trim(s: Seq<char>) -> Seq<char> {
    trim_end(trim_start(s))
}

/// What a specification between braces writes for an argument: `:?` and
/// the empty specification write its `{:?}` rendering, `:#?` its `{:#?}`
/// rendering, and anything else is written as it stands.
pub open spec fn render_spec(spec: Seq<char>, debug: Seq<char>, pretty: Seq<char>) -> Seq<char> {
    if spec == seq![':', '?'] || spec.len() == 0 {
        debug
    } else if spec == seq![':', '#', '?'] {
        pretty
    } else {
        spec
    }
}

/// What the text after a `{` becomes with an argument: up to the first `}`
/// it is the (trimmed) specification, which is replaced by what it writes,
/// and the rest follows; without a `}` the `{` and the text stay as they are.
pub open spec fn render_piece(piece: Seq<char>, debug: Seq<char>, pretty: Seq<char>) -> Seq<char> {
    match first_index(piece, '}') {
        Some(e) => render_spec(trim(piece.take(e)), debug, pretty) + piece.skip(e + 1),
        None => seq!['{'] + piece,
    }
}

/// The texts after each `{`, the first ones taking the arguments in order;
/// those left without an argument keep their `{`.
pub open spec fn render_pieces(pieces: Seq<Seq<char>>, args: Seq<(Seq<char>, Seq<char>)>) -> Seq<char>
    decreases pieces.len(),
{
    if pieces.len() == 0 {
        seq![]
    } else if args.len() == 0 {
        seq!['{'] + pieces[0] + render_pieces(pieces.drop_first(), args)
    } else {
        render_piece(pieces[0], args[0].0, args[0].1) + render_pieces(pieces.drop_first(), args.drop_first())
    }
}

/// The formatted text: the text before the first `{`, then the rendered
/// texts after each `{`. Arguments beyond the number of `{` are not used.
pub open spec fn smart_formatted(fmt: Seq<char>, args: Seq<(Seq<char>, Seq<char>)>) -> Seq<char> {
    let ps = pieces(fmt, '{');
    ps[0] + render_pieces(ps.drop_first(), args)
}

/// The texts after each `{` with their `{` put back.
pub open spec fn rejoined(ps: Seq<Seq<char>>) -> Seq<char> {
    if ps.len() == 0 { seq![] } else { ps[0] + render_pieces(ps.drop_first(), seq![]) }
}

proof fn lemma_render_push(qs: Seq<Seq<char>>, q: Seq<char>)
    ensures
        render_pieces(qs.push(q), seq![]) == render_pieces(qs, seq![]) + seq!['{'] + q,
    decreases qs.len(),
{
    if qs.len() == 0 {
        assert(qs.push(q).drop_first() =~= Seq::<Seq<char>>::empty());
        assert(qs.push(q)[0] == q);
        assert(render_pieces(Seq::<Seq<char>>::empty(), seq![]) == Seq::<char>::empty());
        assert(render_pieces(qs.push(q), seq![]) =~= seq!['{'] + q);
    } else {
        assert(qs.push(q).drop_first() =~= qs.drop_first().push(q));
        lemma_render_push(qs.drop_first(), q);
        assert(render_pieces(qs.push(q), seq![]) =~= render_pieces(qs, seq![]) + seq!['{'] + q);
    }
}

proof fn lemma_rejoined_push(ps: Seq<Seq<char>>, q: Seq<char>)
    ensures
        rejoined(ps.push(q)) == if ps.len() == 0 { q } else { rejoined(ps) + seq!['{'] + q },
{
    if ps.len() > 0 {
        assert(ps.push(q).drop_first() =~= ps.drop_first().push(q));
        lemma_render_push(ps.drop_first(), q);
        assert(rejoined(ps.push(q)) =~= rejoined(ps) + seq!['{'] + q);
    } else {
        assert(ps.push(q).drop_first() =~= Seq::<Seq<char>>::empty());
        assert(rejoined(ps.push(q)) =~= q);
    }
}

proof fn lemma_rejoined_pieces(s: Seq<char>, cur: Seq<char>, acc: Seq<Seq<char>>)
    ensures
        rejoined(pieces_from(s, '{', cur, acc)) == rejoined(acc.push(cur)) + s,
    decreases s.len(),
{
    if s.len() == 0 {
        assert(rejoined(acc.push(cur)) + s =~= rejoined(acc.push(cur)));
    } else if s[0] == '{' {
        lemma_rejoined_pieces(s.drop_first(), seq![], acc.push(cur));
        lemma_rejoined_push(acc.push(cur), seq![]);
        assert(rejoined(acc.push(cur).push(seq![])) + s.drop_first() =~= rejoined(acc.push(cur)) + s);
    } else {
        lemma_rejoined_pieces(s.drop_first(), cur.push(s[0]), acc);
        lemma_rejoined_push(acc, cur.push(s[0]));
        lemma_rejoined_push(acc, cur);
        assert(rejoined(acc.push(cur.push(s[0]))) + s.drop_first() =~= rejoined(acc.push(cur)) + s);
    }
}

/// With no arguments the text comes out as it was written.
pub proof fn lemma_no_args_keeps_text(fmt: Seq<char>)
    ensures
        smart_formatted(fmt, seq![]) == fmt,
{
    lemma_pieces_nonempty(fmt, '{');
    lemma_rejoined_pieces(fmt, seq![], seq![]);
    assert(Seq::<Seq<char>>::empty().push(Seq::<char>::empty()) =~= seq![Seq::<char>::empty()]);
    assert(rejoined(seq![Seq::<char>::empty()]) =~= Seq::<char>::empty()) by {
        assert(seq![Seq::<char>::empty()].drop_first() =~= Seq::<Seq<char>>::empty());
    }
    assert(fmt =~= Seq::<char>::empty() + fmt);
}

/// The first position where `cs` holds `c`.
fn find_char(cs: &Vec<char>, c: char) -> (r: Option<usize>)
    ensures
        match r {
            Some(i) => i < cs@.len() && first_index(cs@, c) == Some(i as int),
            None => first_index(cs@, c) is None,
        },
{
    let n = cs.len();
    let mut i: usize = 0;
    while i < n
        invariant
            n == cs@.len(),
            0 <= i <= n,
            first_index(cs@, c) == first_index_from(cs@, c, i as int),
        decreases n - i,
    {
        if cs[i] == c {
            return Some(i);
        }
        i = i + 1;
    }
    None
}

/// Appends the characters of `cs` from `lo` up to `hi`.
fn push_range(s: &mut String, cs: &Vec<char>, lo: usize, hi: usize)
    requires
        lo <= hi <= cs@.len(),
    ensures
        final(s)@ == old(s)@ + cs@.subrange(lo as int, hi as int),
{
    let mut i: usize = lo;
    while i < hi
        invariant
            lo <= i <= hi <= cs@.len(),
            s@ == old(s)@ + cs@.subrange(lo as int, i as int),
        decreases hi - i,
    {
        push_char(s, cs[i]);
        assert(cs@.subrange(lo as int, i + 1) =~= cs@.subrange(lo as int, i as int).push(cs@[i as int]));
        i = i + 1;
    }
}

/// The bounds of the characters before `e` without white space at either end.
fn trim_bounds(cs: &Vec<char>, e: usize) -> (r: (usize, usize))
    requires
        e <= cs@.len(),
    ensures
        r.0 <= r.1 <= e,
        cs@.subrange(r.0 as int, r.1 as int) == trim(cs@.take(e as int)),
{
    let ghost t = cs@.take(e as int);
    let mut lo: usize = 0;
    assert(t.skip(0) =~= t);
    while lo < e && white_space_at(cs, lo)
        invariant
            lo <= e <= cs@.len(),
            t == cs@.take(e as int),
            trim_start(t) == trim_start(t.skip(lo as int)),
        decreases e - lo,
    {
        assert(t.skip(lo as int).drop_first() =~= t.skip(lo + 1));
        lo = lo + 1;
    }
    let ghost u = t.skip(lo as int);
    assert(trim_start(t) == u) by {
        if lo < e {
            assert(u[0] == cs@[lo as int]);
        } else {
            assert(u.len() == 0);
        }
    }
    let mut hi: usize = e;
    assert(u.take(hi - lo) =~= u);
    while hi > lo && white_space_at(cs, hi - 1)
        invariant
            lo <= hi <= e <= cs@.len(),
            t == cs@.take(e as int),
            u == t.skip(lo as int),
            trim_end(u) == trim_end(u.take(hi - lo)),
        decreases hi - lo,
    {
        assert(u.take(hi - lo).drop_last() =~= u.take(hi - 1 - lo));
        assert(u.take(hi - lo).last() == cs@[hi - 1]);
        hi = hi - 1;
    }
    assert(u.take(hi - lo) =~= cs@.subrange(lo as int, hi as int));
    assert(trim_end(u.take(hi - lo)) == u.take(hi - lo)) by {
        if hi > lo {
            assert(u.take(hi - lo).last() == cs@[hi - 1]);
        }
    }
    (lo, hi)
}

/// Whether the character at `i` is white space.
fn white_space_at(cs: &Vec<char>, i: usize) -> (r: bool)
    requires
        i < cs@.len(),
    ensures
        r == is_white_space(cs@[i as int]),
{
    crate::text::white_space(cs[i])
}

/// Whether the characters from `lo` up to `hi` are exactly `want`.
fn range_is(cs: &Vec<char>, lo: usize, hi: usize, want: &Vec<char>) -> (r: bool)
    requires
        lo <= hi <= cs@.len(),
    ensures
        r == (cs@.subrange(lo as int, hi as int) == want@),
{
    if hi - lo != want.len() {
        assert(cs@.subrange(lo as int, hi as int).len() != want@.len());
        return false;
    }
    let mut k: usize = 0;
    while k < want.len()
        invariant
            lo <= hi <= cs@.len(),
            hi - lo == want@.len(),
            0 <= k <= want@.len(),
            forall|j: int| 0 <= j < k ==> cs@[lo + j] == want@[j],
        decreases want@.len() - k,
    {
        if cs[lo + k] != want[k] {
            assert(cs@.subrange(lo as int, hi as int)[k as int] != want@[k as int]);
            return false;
        }
        k = k + 1;
    }
    assert(cs@.subrange(lo as int, hi as int) =~= want@);
    true
}

/// Appends what the text after a `{` becomes with the argument `arg`.
fn push_piece(s: &mut String, piece: &str, arg: &FormatArg)
    ensures
        final(s)@ == old(s)@ + render_piece(piece@, arg.debug@, arg.pretty@),
{
    let cs = chars_of(piece);
    let n = cs.len();
    match find_char(&cs, '}') {
        Some(e) => {
            let (lo, hi) = trim_bounds(&cs, e);
            let ghost spec = cs@.subrange(lo as int, hi as int);
            let short: Vec<char> = vec![':', '?'];
            let pretty: Vec<char> = vec![':', '#', '?'];
            assert(short@ == seq![':', '?']);
            assert(pretty@ == seq![':', '#', '?']);
            if range_is(&cs, lo, hi, &short) || hi == lo {
                push_str(s, arg.debug.as_str());
            } else if range_is(&cs, lo, hi, &pretty) {
                push_str(s, arg.pretty.as_str());
            } else {
                push_range(s, &cs, lo, hi);
            }
            let ghost mid = s@;
            assert(mid == old(s)@ + render_spec(spec, arg.debug@, arg.pretty@));
            push_range(s, &cs, e + 1, n);
            assert(cs@.subrange(e + 1, cs@.len() as int) =~= piece@.skip(e + 1));
            assert(s@ =~= old(s)@ + (render_spec(spec, arg.debug@, arg.pretty@) + piece@.skip(e + 1)));
        },
        None => {
            push_char(s, '{');
            push_str(s, piece);
            assert(s@ =~= old(s)@ + (seq!['{'] + piece@));
        },
    }
}

/// Formats `fmt` with the arguments: each `{...}` in turn takes the next
/// argument and is replaced by what its specification writes (a plain `{}`
/// writes the `{:?}` rendering); once the arguments are used up, the rest of
/// the text stays as it is.
pub fn smart_format(fmt: &str, args: &Vec<FormatArg>) -> (r: String)
    ensures
        r@ == smart_formatted(fmt@, args_view(args@)),
        args@.len() == 0 ==> r@ == fmt@,
{
    let parts = split_on(fmt, '{');
    let ghost ps = pieces(fmt@, '{');
    let ghost av = args_view(args@);
    proof {
        lemma_pieces_nonempty(fmt@, '{');
        assert(parts@.map_values(|t: String| t@) == ps);
        assert(parts@[0]@ == ps[0]);
    }
    let mut result: String = String::new();
    push_str(&mut result, parts[0].as_str());
    assert(ps.skip(1) =~= ps.drop_first());
    assert(av.skip(0) =~= av);
    let n = parts.len();
    let m = args.len();
    let mut k: usize = 1;
    let mut a: usize = 0;
    while k < n
        invariant
            n == parts@.len(),
            n == ps.len(),
            m == args@.len(),
            av == args_view(args@),
            ps == parts@.map_values(|t: String| t@),
            1 <= k <= n,
            a <= m,
            result@ + render_pieces(ps.skip(k as int), av.skip(a as int)) == smart_formatted(fmt@, av),
        decreases n - k,
    {
        let ghost before = result@;
        let ghost rest = ps.skip(k as int);
        assert(rest[0] == parts@[k as int]@);
        assert(rest.drop_first() =~= ps.skip(k + 1));
        if a < m {
            push_piece(&mut result, parts[k].as_str(), &args[a]);
            proof {
                let ar = av.skip(a as int);
                assert(ar[0] == (args@[a as int].debug@, args@[a as int].pretty@));
                assert(ar.drop_first() =~= av.skip(a + 1));
                assert(render_pieces(rest, ar) == render_piece(rest[0], ar[0].0, ar[0].1) + render_pieces(rest.drop_first(), ar.drop_first()));
                assert(result@ + render_pieces(ps.skip(k + 1), av.skip(a + 1)) =~= before + render_pieces(rest, ar));
            }
            a = a + 1;
        } else {
            push_char(&mut result, '{');
            push_str(&mut result, parts[k].as_str());
            proof {
                let ar = av.skip(a as int);
                assert(ar.len() == 0);
                assert(render_pieces(rest, ar) == seq!['{'] + rest[0] + render_pieces(rest.drop_first(), ar));
                assert(result@ + render_pieces(ps.skip(k + 1), av.skip(a as int)) =~= before + render_pieces(rest, ar));
            }
        }
        k = k + 1;
    }
    proof {
        assert(ps.skip(n as int).len() == 0);
        assert(result@ + render_pieces(ps.skip(n as int), av.skip(a as int)) =~= result@);
        if args@.len() == 0 {
            assert(av =~= seq![]);
            lemma_no_args_keeps_text(fmt@);
        }
    }
    result
}

} // verus!
