//! Small string-building helpers shared by the logging and animation modules.

use vstd::prelude::*;

verus! {

/// The ten decimal digit characters, indexed by their value.
pub const DIGITS: [char; 10] = ['0', '1', '2', '3', '4', '5', '6', '7', '8', '9'];

/// The decimal representation of `n`, most significant digit first, without
/// leading zeros (zero itself is written as a single `0`).
pub open spec fn decimal(n: nat) -> Seq<char>
    decreases n,
{
    if n < 10 {
        seq![DIGITS@[n as int]]
    } else {
        decimal(n / 10).push(DIGITS@[(n % 10) as int])
    }
}

/// What `format!("{:?}", s)` gives for a string slice: the text between
/// double quotes, with Rust's escaping applied.
pub uninterp spec fn debug_repr(s: Seq<char>) -> Seq<char>;

/// What `str::to_lowercase` gives for a string slice.
pub uninterp spec fn lowercase(s: Seq<char>) -> Seq<char>;

/// Appends one character, through `String::push`, whose documentation says it
/// appends the given char to the end of the string.
#[verifier::external_body]
pub(crate) fn push_char(s: &mut String, c: char)
    ensures
        final(s)@ == old(s)@.push(c),
{
    s.push(c);
}

/// Formats a string slice with `{:?}`, through `format!`. The contract names
/// the result (`debug_repr`) and does not spell out Rust's escaping rules.
#[verifier::external_body]
pub(crate) fn debug_quoted(s: &str) -> (r: String)
    ensures
        r@ == debug_repr(s@),
{
    format!("{:?}", s)
}

/// Lower-cases a string slice through `str::to_lowercase`. The contract names
/// the result (`lowercase`) and does not spell out Unicode case mapping.
#[verifier::external_body]
pub(crate) fn to_lowercase(s: &str) -> (r: String)
    ensures
        r@ == lowercase(s@),
{
    s.to_lowercase()
}

/// Appends the decimal representation of `n` to `s`.
pub fn push_decimal(s: &mut String, n: usize)
    ensures
        final(s)@ == old(s)@ + decimal(n as nat),
    decreases n,
{
    if n >= 10 {
        push_decimal(s, n / 10);
    }
    let d: usize = n % 10;
    push_char(s, DIGITS[d]);
    assert(final(s)@ =~= old(s)@ + decimal(n as nat)) by {
        if n >= 10 {
            assert(decimal(n as nat) == decimal((n / 10) as nat).push(DIGITS@[(n % 10) as int]));
        }
    }
}

/// The decimal representation of `n` as a new string, as `n.to_string()` gives it.
pub fn usize_to_decimal(n: usize) -> (r: String)
    ensures
        r@ == decimal(n as nat),
{
    let mut s = String::new();
    push_decimal(&mut s, n);
    assert(s@ =~= decimal(n as nat));
    s
}

/// Appends a string slice.
pub fn push_str(s: &mut String, t: &str)
    ensures
        final(s)@ == old(s)@ + t@,
{
    s.append(t);
}

/// The characters of a string slice, in order.
pub(crate) fn chars_of(s: &str) -> (r: Vec<char>)
    ensures
        r@ == s@,
{
    let n = s.unicode_len();
    let mut r: Vec<char> = Vec::new();
    let mut i: usize = 0;
    while i < n
        invariant
            n == s@.len(),
            0 <= i <= n,
            r@ == s@.take(i as int),
        decreases n - i,
    {
        r.push(s.get_char(i));
        assert(s@.take(i + 1) =~= s@.take(i as int).push(s@[i as int]));
        i = i + 1;
    }
    assert(s@.take(n as int) =~= s@);
    r
}

/// A string made of the given characters.
pub fn string_of(cs: &Vec<char>) -> (r: String)
    ensures
        r@ == cs@,
{
    let mut s = String::new();
    let n = cs.len();
    let mut i: usize = 0;
    while i < n
        invariant
            n == cs@.len(),
            0 <= i <= n,
            s@ == cs@.take(i as int),
        decreases n - i,
    {
        push_char(&mut s, cs[i]);
        assert(cs@.take(i + 1) =~= cs@.take(i as int).push(cs@[i as int]));
        i = i + 1;
    }
    assert(cs@.take(n as int) =~= cs@);
    s
}

/// White space as `char::is_whitespace` defines it: the characters with the
/// Unicode `White_Space` property.
pub open spec fn is_white_space(c: char) -> bool {
    let u = c as u32;
    (0x09 <= u <= 0x0D) || u == 0x20 || u == 0x85 || u == 0xA0 || u == 0x1680
        || (0x2000 <= u <= 0x200A) || u == 0x2028 || u == 0x2029 || u == 0x202F
        || u == 0x205F || u == 0x3000
}

/// Whether `c` is white space.
pub fn white_space(c: char) -> (r: bool)
    ensures
        r == is_white_space(c),
{
    let u: u32 = c as u32;
    (0x09 <= u && u <= 0x0D) || u == 0x20 || u == 0x85 || u == 0xA0 || u == 0x1680
        || (0x2000 <= u && u <= 0x200A) || u == 0x2028 || u == 0x2029 || u == 0x202F
        || u == 0x205F || u == 0x3000
}

/// Splitting at white space, going through `s` with the token being built
/// (`cur`) and the tokens found so far (`acc`).
pub open spec fn ws_tokens_from(s: Seq<char>, cur: Seq<char>, acc: Seq<Seq<char>>) -> Seq<Seq<char>>
    decreases s.len(),
{
    if s.len() == 0 {
        if cur.len() > 0 { acc.push(cur) } else { acc }
    } else if is_white_space(s[0]) {
        ws_tokens_from(s.drop_first(), seq![], if cur.len() > 0 { acc.push(cur) } else { acc })
    } else {
        ws_tokens_from(s.drop_first(), cur.push(s[0]), acc)
    }
}

/// The maximal runs of non-white-space characters of `s`, in order, as
/// `str::split_whitespace` gives them.
pub open spec fn ws_tokens(s: Seq<char>) -> Seq<Seq<char>> {
    ws_tokens_from(s, seq![], seq![])
}

/// Splitting at `sep`, going through `s` with the piece being built and the
/// pieces found so far.
pub open spec fn pieces_from(s: Seq<char>, sep: char, cur: Seq<char>, acc: Seq<Seq<char>>) -> Seq<Seq<char>>
    decreases s.len(),
{
    if s.len() == 0 {
        acc.push(cur)
    } else if s[0] == sep {
        pieces_from(s.drop_first(), sep, seq![], acc.push(cur))
    } else {
        pieces_from(s.drop_first(), sep, cur.push(s[0]), acc)
    }
}

/// The pieces of `s` between occurrences of `sep`, empty ones included, as
/// `str::split` with a character gives them.
pub open spec fn pieces(s: Seq<char>, sep: char) -> Seq<Seq<char>> {
    pieces_from(s, sep, seq![], seq![])
}

/// Splitting always gives at least one piece.
pub(crate) proof fn lemma_pieces_nonempty(s: Seq<char>, sep: char)
    ensures
        pieces(s, sep).len() >= 1,
{
    lemma_pieces_from_len(s, sep, seq![], seq![]);
}

proof fn lemma_pieces_from_len(s: Seq<char>, sep: char, cur: Seq<char>, acc: Seq<Seq<char>>)
    ensures
        pieces_from(s, sep, cur, acc).len() >= acc.len() + 1,
    decreases s.len(),
{
    if s.len() == 0 {
    } else if s[0] == sep {
        lemma_pieces_from_len(s.drop_first(), sep, seq![], acc.push(cur));
    } else {
        lemma_pieces_from_len(s.drop_first(), sep, cur.push(s[0]), acc);
    }
}

/// Splits `s` at white space.
pub fn split_whitespace(s: &str) -> (r: Vec<String>)
    ensures
        r@.map_values(|t: String| t@) == ws_tokens(s@),
{
    let cs = chars_of(s);
    let mut acc: Vec<String> = Vec::new();
    let mut cur: Vec<char> = Vec::new();
    let n = cs.len();
    let mut i: usize = 0;
    assert(cs@.skip(0) =~= cs@);
    assert(acc@.map_values(|t: String| t@) =~= Seq::<Seq<char>>::empty());
    assert(cur@ =~= Seq::<char>::empty());
    while i < n
        invariant
            n == cs@.len(),
            cs@ == s@,
            0 <= i <= n,
            ws_tokens(s@) == ws_tokens_from(cs@.skip(i as int), cur@, acc@.map_values(|t: String| t@)),
        decreases n - i,
    {
        let c = cs[i];
        assert(cs@.skip(i as int).drop_first() =~= cs@.skip(i + 1));
        assert(cs@.skip(i as int)[0] == c);
        if white_space(c) {
            if cur.len() > 0 {
                let ghost before = acc@.map_values(|t: String| t@);
                let t = string_of(&cur);
                acc.push(t);
                assert(acc@.map_values(|t: String| t@) =~= before.push(cur@));
            }
            cur = Vec::new();
            assert(cur@ =~= seq![]);
        } else {
            cur.push(c);
        }
        i = i + 1;
    }
    assert(cs@.skip(n as int) =~= Seq::<char>::empty());
    if cur.len() > 0 {
        let ghost before = acc@.map_values(|t: String| t@);
        let t = string_of(&cur);
        acc.push(t);
        assert(acc@.map_values(|t: String| t@) =~= before.push(cur@));
    }
    acc
}

/// Splits `s` at every occurrence of `sep`.
pub fn split_on(s: &str, sep: char) -> (r: Vec<String>)
    ensures
        r@.map_values(|t: String| t@) == pieces(s@, sep),
{
    let cs = chars_of(s);
    let mut acc: Vec<String> = Vec::new();
    let mut cur: Vec<char> = Vec::new();
    let n = cs.len();
    let mut i: usize = 0;
    assert(cs@.skip(0) =~= cs@);
    assert(acc@.map_values(|t: String| t@) =~= Seq::<Seq<char>>::empty());
    assert(cur@ =~= Seq::<char>::empty());
    while i < n
        invariant
            n == cs@.len(),
            cs@ == s@,
            0 <= i <= n,
            pieces(s@, sep) == pieces_from(cs@.skip(i as int), sep, cur@, acc@.map_values(|t: String| t@)),
        decreases n - i,
    {
        let c = cs[i];
        assert(cs@.skip(i as int).drop_first() =~= cs@.skip(i + 1));
        assert(cs@.skip(i as int)[0] == c);
        if c == sep {
            let ghost before = acc@.map_values(|t: String| t@);
            let t = string_of(&cur);
            acc.push(t);
            assert(acc@.map_values(|t: String| t@) =~= before.push(cur@));
            cur = Vec::new();
            assert(cur@ =~= seq![]);
        } else {
            cur.push(c);
        }
        i = i + 1;
    }
    assert(cs@.skip(n as int) =~= Seq::<char>::empty());
    let ghost before = acc@.map_values(|t: String| t@);
    let t = string_of(&cur);
    acc.push(t);
    assert(acc@.map_values(|t: String| t@) =~= before.push(cur@));
    acc
}

/// Whether `c` is a decimal digit.
pub open spec fn is_digit(c: char) -> bool {
    '0' <= c <= '9'
}

/// The value of a string of decimal digits.
pub open spec fn digits_value(d: Seq<char>) -> nat
    decreases d.len(),
{
    if d.len() == 0 {
        0
    } else {
        digits_value(d.drop_last()) * 10 + ((d.last() as u32) - ('0' as u32)) as nat
    }
}

/// The digits of a number as `usize::from_str` reads it: an optional `+`,
/// then the rest.
pub open spec fn unsigned_digits(s: Seq<char>) -> Seq<char> {
    if s.len() > 0 && s[0] == '+' { s.drop_first() } else { s }
}

/// What `s.parse::<usize>()` gives, as an option: the value when what follows
/// an optional `+` is a non-empty run of decimal digits whose value fits.
pub open spec fn parsed_usize(s: Seq<char>) -> Option<usize> {
    let d = unsigned_digits(s);
    if d.len() > 0 && (forall|i: int| 0 <= i < d.len() ==> is_digit(#[trigger] d[i])) && digits_value(d) <= usize::MAX {
        Some(digits_value(d) as usize)
    } else {
        None
    }
}

proof fn lemma_digits_value_monotone(d: Seq<char>, k: int)
    requires
        0 <= k <= d.len(),
        forall|i: int| 0 <= i < d.len() ==> is_digit(#[trigger] d[i]),
    ensures
        digits_value(d.take(k)) <= digits_value(d),
    decreases d.len() - k,
{
    if k < d.len() {
        lemma_digits_value_monotone(d, k + 1);
        assert(d.take(k + 1).drop_last() =~= d.take(k));
        assert(digits_value(d.take(k + 1)) == digits_value(d.take(k)) * 10 + ((d[k] as u32) - ('0' as u32)) as nat);
    } else {
        assert(d.take(k) =~= d);
    }
}

/// Reads a number as `s.parse::<usize>().ok()` does.
pub fn parse_usize(s: &str) -> (r: Option<usize>)
    ensures
        r == parsed_usize(s@),
{
    let cs = chars_of(s);
    let n = cs.len();
    let mut start: usize = 0;
    if n > 0 && cs[0] == '+' {
        start = 1;
    }
    let ghost d = unsigned_digits(s@);
    assert(d =~= cs@.skip(start as int));
    if start == n {
        return None;
    }
    let mut value: usize = 0;
    let mut i: usize = start;
    while i < n
        invariant
            n == cs@.len(),
            cs@ == s@,
            d == cs@.skip(start as int),
            d == unsigned_digits(s@),
            start <= i <= n,
            start < n,
            forall|j: int| 0 <= j < i - start ==> is_digit(#[trigger] d[j]),
            value as nat == digits_value(d.take(i - start)),
        decreases n - i,
    {
        let c = cs[i];
        assert(d[i - start] == c);
        if !('0' <= c && c <= '9') {
            assert(!is_digit(d[i - start]));
            return None;
        }
        let digit: usize = ((c as u32) - ('0' as u32)) as usize;
        assert(d.take(i - start + 1).drop_last() =~= d.take(i - start));
        match value.checked_mul(10) {
            Some(v10) => match v10.checked_add(digit) {
                Some(v) => {
                    value = v;
                },
                None => {
                    proof { lemma_rest_digits(d, (i - start) as int); }
                    return None;
                },
            },
            None => {
                proof { lemma_rest_digits(d, (i - start) as int); }
                return None;
            },
        }
        i = i + 1;
    }
    assert(d.take(n - start) =~= d);
    Some(value)
}

/// When a prefix of digits already exceeds the largest `usize`, either some
/// later character is no digit or the whole value exceeds it too.
proof fn lemma_rest_digits(d: Seq<char>, k: int)
    requires
        0 <= k < d.len(),
        forall|j: int| 0 <= j <= k ==> is_digit(#[trigger] d[j]),
        digits_value(d.take(k + 1)) > usize::MAX,
    ensures
        parsed_usize_digits_fail(d),
{
    if forall|i: int| 0 <= i < d.len() ==> is_digit(#[trigger] d[i]) {
        lemma_digits_value_monotone(d, k + 1);
    }
}

/// A run that is not all digits, or whose value does not fit.
pub open spec fn parsed_usize_digits_fail(d: Seq<char>) -> bool {
    !((forall|i: int| 0 <= i < d.len() ==> is_digit(#[trigger] d[i])) && digits_value(d) <= usize::MAX)
}

} // verus!
