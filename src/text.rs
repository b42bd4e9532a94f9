//! Character-sequence helpers: searching, splitting, trimming, tokenizing.
use vstd::prelude::*;

verus! {

/// `p` occurs in `s` starting at index `i`.
pub open spec fn occurs_at(s: Seq<char>, p: Seq<char>, i: int) -> bool {
    0 <= i && i + p.len() <= s.len() && s.subrange(i, i + p.len()) == p
}

/// The first index at or after `i` where `p` occurs in `s`.
pub open spec fn find_from(s: Seq<char>, p: Seq<char>, i: int) -> Option<int>
    decreases s.len() + 1 - i,
{
    if i < 0 || i + p.len() > s.len() {
        None
    } else if occurs_at(s, p, i) {
        Some(i)
    } else {
        find_from(s, p, i + 1)
    }
}

/// The first index where `p` occurs in `s`.
pub open spec fn find(s: Seq<char>, p: Seq<char>) -> Option<int> {
    find_from(s, p, 0)
}

/// Splits `s` around the first occurrence of `p`.
pub open spec fn split_once(s: Seq<char>, p: Seq<char>) -> Option<(Seq<char>, Seq<char>)> {
    match find(s, p) {
        Some(i) => Some((s.take(i), s.skip(i + p.len()))),
        None => None,
    }
}

/// Index of the first occurrence of `p` in `s`.
pub fn find_in(s: &Vec<char>, p: &Vec<char>) -> (r: Option<usize>)
    requires
        p@.len() > 0,
    ensures
        match r {
            Some(i) => find(s@, p@) == Some(i as int) && i + p@.len() <= s@.len(),
            None => find(s@, p@) is None,
        },
{
    if p.len() > s.len() {
        return None;
    }
    let n: usize = s.len();
    let last: usize = n - p.len();
    let mut i: usize = 0;
    while i <= last
        invariant
            p@.len() > 0,
            p@.len() <= s@.len(),
            last == s@.len() - p@.len(),
            n == s@.len(),
            i <= last + 1,
            find_from(s@, p@, 0) == find_from(s@, p@, i as int),
        decreases last + 1 - i,
    {
        let mut j: usize = 0;
        let mut same = true;
        while j < p.len()
            invariant
                i <= last,
                p@.len() > 0,
                p@.len() <= s@.len(),
                last == s@.len() - p@.len(),
                n == s@.len(),
            n == s@.len(),
                j <= p@.len(),
                same <==> (forall|k: int| 0 <= k < j ==> s@[i + k] == p@[k]),
            decreases p@.len() - j,
        {
            if s[i + j] != p[j] {
                same = false;
            }
            j += 1;
        }
        if same {
            assert(s@.subrange(i as int, i + p@.len()) =~= p@);
            return Some(i);
        }
        assert(!occurs_at(s@, p@, i as int)) by {
            if occurs_at(s@, p@, i as int) {
                assert forall|k: int| 0 <= k < p@.len() implies s@[i + k] == p@[k] by {
                    assert(s@.subrange(i as int, i + p@.len())[k] == s@[i + k]);
                }
            }
        }
        i += 1;
    }
    None
}

/// The characters that Unicode marks `White_Space`.
pub open spec fn is_ws(c: char) -> bool {
    ('\u{9}' <= c && c <= '\u{d}') || c == ' ' || c == '\u{85}' || c == '\u{a0}'
        || c == '\u{1680}' || ('\u{2000}' <= c && c <= '\u{200a}') || c == '\u{2028}'
        || c == '\u{2029}' || c == '\u{202f}' || c == '\u{205f}' || c == '\u{3000}'
}

/// Whether `c` is whitespace.
pub fn is_whitespace(c: char) -> (r: bool)
    ensures
        r == is_ws(c),
{
    ('\u{9}' <= c && c <= '\u{d}') || c == ' ' || c == '\u{85}' || c == '\u{a0}'
        || c == '\u{1680}' || ('\u{2000}' <= c && c <= '\u{200a}') || c == '\u{2028}'
        || c == '\u{2029}' || c == '\u{202f}' || c == '\u{205f}' || c == '\u{3000}'
}

/// `s` without its leading whitespace.
pub open spec fn trim_start(s: Seq<char>) -> Seq<char>
    decreases s.len(),
{
    if s.len() > 0 && is_ws(s[0]) {
        trim_start(s.drop_first())
    } else {
        s
    }
}

/// `s` without its trailing whitespace.
pub open spec fn trim_end(s: Seq<char>) -> Seq<char>
    decreases s.len(),
{
    if s.len() > 0 && is_ws(s.last()) {
        trim_end(s.drop_last())
    } else {
        s
    }
}

/// `s` without leading or trailing whitespace.
pub open spec fn trim(s: Seq<char>) -> Seq<char> {
    trim_end(trim_start(s))
}

/// The pieces of `s` between the separators `"\r\n"`, scanned left to right;
/// `cur` is the piece being gathered.
pub open spec fn lines_acc(s: Seq<char>, cur: Seq<char>) -> Seq<Seq<char>>
    decreases s.len(),
{
    if s.len() == 0 {
        seq![cur]
    } else if s.len() >= 2 && s[0] == '\r' && s[1] == '\n' {
        seq![cur] + lines_acc(s.skip(2), seq![])
    } else {
        lines_acc(s.drop_first(), cur.push(s[0]))
    }
}

/// `s` split on every `"\r\n"`; empty pieces are kept.
pub open spec fn lines(s: Seq<char>) -> Seq<Seq<char>> {
    lines_acc(s, seq![])
}

/// `cur` as a word, if it is not empty.
pub open spec fn word_of(cur: Seq<char>) -> Seq<Seq<char>> {
    if cur.len() > 0 {
        seq![cur]
    } else {
        seq![]
    }
}

/// The maximal runs of non-whitespace characters of `s`, left to right;
/// `cur` is the run being gathered.
pub open spec fn words_acc(s: Seq<char>, cur: Seq<char>) -> Seq<Seq<char>>
    decreases s.len(),
{
    if s.len() == 0 {
        word_of(cur)
    } else if is_ws(s[0]) {
        word_of(cur) + words_acc(s.drop_first(), seq![])
    } else {
        words_acc(s.drop_first(), cur.push(s[0]))
    }
}

/// The whitespace-separated words of `s`.
pub open spec fn words(s: Seq<char>) -> Seq<Seq<char>> {
    words_acc(s, seq![])
}

/// The characters of `s`, one by one.
pub fn chars_of(s: &str) -> (r: Vec<char>)
    ensures
        r@ == s@,
{
    let n: usize = s.unicode_len();
    let mut r: Vec<char> = Vec::new();
    let mut i: usize = 0;
    while i < n
        invariant
            n == s@.len(),
            i <= n,
            r@ == s@.take(i as int),
        decreases n - i,
    {
        r.push(s.get_char(i));
        i += 1;
        assert(r@ =~= s@.take(i as int));
    }
    assert(r@ =~= s@);
    r
}

/// A copy of `c[a..b]`.
pub fn sub_vec(c: &Vec<char>, a: usize, b: usize) -> (r: Vec<char>)
    requires
        a <= b <= c@.len(),
    ensures
        r@ == c@.subrange(a as int, b as int),
{
    let mut r: Vec<char> = Vec::new();
    let mut i: usize = a;
    while i < b
        invariant
            a <= i <= b,
            b <= c@.len(),
            r@ == c@.subrange(a as int, i as int),
        decreases b - i,
    {
        r.push(c[i]);
        i += 1;
        assert(r@ =~= c@.subrange(a as int, i as int));
    }
    r
}

/// The characters of `s` from index `a` up to `b`, as a new string.
pub fn substring(s: &str, a: usize, b: usize) -> (r: String)
    requires
        a <= b <= s@.len(),
    ensures
        r@ == s@.subrange(a as int, b as int),
{
    String::from_str(s.substring_char(a, b))
}

/// The bounds of `c[a..b]` with its surrounding whitespace left out.
pub fn trim_range(c: &Vec<char>, a: usize, b: usize) -> (r: (usize, usize))
    requires
        a <= b <= c@.len(),
    ensures
        a <= r.0 <= r.1 <= b,
        c@.subrange(r.0 as int, r.1 as int) == trim(c@.subrange(a as int, b as int)),
{
    let mut i: usize = a;
    while i < b && is_whitespace(c[i])
        invariant
            a <= i <= b,
            b <= c@.len(),
            trim_start(c@.subrange(a as int, b as int)) == trim_start(
                c@.subrange(i as int, b as int),
            ),
        decreases b - i,
    {
        assert(c@.subrange(i as int, b as int).drop_first() =~= c@.subrange(i + 1, b as int));
        i += 1;
    }
    let mut j: usize = b;
    while j > i && is_whitespace(c[j - 1])
        invariant
            a <= i <= j <= b,
            b <= c@.len(),
            trim_end(c@.subrange(i as int, b as int)) == trim_end(
                c@.subrange(i as int, j as int),
            ),
        decreases j - i,
    {
        assert(c@.subrange(i as int, j as int).drop_last() =~= c@.subrange(i as int, j - 1));
        j -= 1;
    }
    (i, j)
}

/// The bounds of the pieces of `c[a..b]` between the separators `"\r\n"`.
pub fn line_ranges(c: &Vec<char>, a: usize, b: usize) -> (r: Vec<(usize, usize)>)
    requires
        a <= b <= c@.len(),
    ensures
        r@.len() == lines(c@.subrange(a as int, b as int)).len(),
        forall|k: int|
            0 <= k < r@.len() ==> a <= #[trigger] r@[k].0 <= r@[k].1 <= b && c@.subrange(
                r@[k].0 as int,
                r@[k].1 as int,
            ) == lines(c@.subrange(a as int, b as int))[k],
{
    let mut r: Vec<(usize, usize)> = Vec::new();
    let ghost mut done: Seq<Seq<char>> = seq![];
    let mut start: usize = a;
    let mut i: usize = a;
    assert(c@.subrange(a as int, a as int) =~= Seq::<char>::empty());
    assert(done + lines(c@.subrange(a as int, b as int)) =~= lines(c@.subrange(a as int, b as int)));
    while i < b
        invariant
            a <= start <= i <= b,
            b <= c@.len(),
            r@.len() == done.len(),
            forall|k: int|
                0 <= k < r@.len() ==> a <= #[trigger] r@[k].0 <= r@[k].1 <= b && c@.subrange(
                    r@[k].0 as int,
                    r@[k].1 as int,
                ) == done[k],
            done + lines_acc(c@.subrange(i as int, b as int), c@.subrange(start as int, i as int))
                == lines(c@.subrange(a as int, b as int)),
        decreases b - i,
    {
        let ghost rest = c@.subrange(i as int, b as int);
        let ghost cur = c@.subrange(start as int, i as int);
        if i + 1 < b && c[i] == '\r' && c[i + 1] == '\n' {
            assert(rest.skip(2) =~= c@.subrange(i + 2, b as int));
            assert(c@.subrange(i + 2, i + 2) =~= Seq::<char>::empty());
            proof {
                done = done.push(cur);
            }
            assert(done.drop_last() + (seq![cur] + lines_acc(rest.skip(2), seq![]))
                =~= done + lines_acc(rest.skip(2), seq![]));
            r.push((start, i));
            i += 2;
            start = i;
        } else {
            assert(rest.drop_first() =~= c@.subrange(i + 1, b as int));
            assert(cur.push(rest[0]) =~= c@.subrange(start as int, i + 1));
            i += 1;
        }
    }
    let ghost cur = c@.subrange(start as int, i as int);
    assert(c@.subrange(i as int, b as int) =~= Seq::<char>::empty());
    proof {
        done = done.push(cur);
    }
    r.push((start, i));
    r
}

/// The bounds of the whitespace-separated words of `c[a..b]`.
pub fn word_ranges(c: &Vec<char>, a: usize, b: usize) -> (r: Vec<(usize, usize)>)
    requires
        a <= b <= c@.len(),
    ensures
        r@.len() == words(c@.subrange(a as int, b as int)).len(),
        forall|k: int|
            0 <= k < r@.len() ==> a <= #[trigger] r@[k].0 <= r@[k].1 <= b && c@.subrange(
                r@[k].0 as int,
                r@[k].1 as int,
            ) == words(c@.subrange(a as int, b as int))[k],
{
    let mut r: Vec<(usize, usize)> = Vec::new();
    let ghost mut done: Seq<Seq<char>> = seq![];
    let mut start: usize = a;
    let mut i: usize = a;
    assert(c@.subrange(a as int, a as int) =~= Seq::<char>::empty());
    assert(done + words(c@.subrange(a as int, b as int)) =~= words(c@.subrange(a as int, b as int)));
    while i < b
        invariant
            a <= start <= i <= b,
            b <= c@.len(),
            r@.len() == done.len(),
            forall|k: int|
                0 <= k < r@.len() ==> a <= #[trigger] r@[k].0 <= r@[k].1 <= b && c@.subrange(
                    r@[k].0 as int,
                    r@[k].1 as int,
                ) == done[k],
            done + words_acc(c@.subrange(i as int, b as int), c@.subrange(start as int, i as int))
                == words(c@.subrange(a as int, b as int)),
        decreases b - i,
    {
        let ghost rest = c@.subrange(i as int, b as int);
        let ghost cur = c@.subrange(start as int, i as int);
        assert(rest.drop_first() =~= c@.subrange(i + 1, b as int));
        if is_whitespace(c[i]) {
            assert(c@.subrange(i + 1, i + 1) =~= Seq::<char>::empty());
            if start < i {
                proof {
                    done = done.push(cur);
                }
                assert(done.drop_last() + (word_of(cur) + words_acc(rest.drop_first(), seq![]))
                    =~= done + words_acc(rest.drop_first(), seq![]));
                r.push((start, i));
            } else {
                assert(word_of(cur) =~= Seq::<Seq<char>>::empty());
                assert(done + (word_of(cur) + words_acc(rest.drop_first(), seq![]))
                    =~= done + words_acc(rest.drop_first(), seq![]));
            }
            i += 1;
            start = i;
        } else {
            assert(cur.push(rest[0]) =~= c@.subrange(start as int, i + 1));
            i += 1;
        }
    }
    let ghost cur = c@.subrange(start as int, i as int);
    assert(c@.subrange(i as int, b as int) =~= Seq::<char>::empty());
    if start < i {
        proof {
            done = done.push(cur);
        }
        r.push((start, i));
    } else {
        assert(done + word_of(cur) =~= done);
    }
    r
}

/// The value of a decimal digit character.
pub open spec fn digit_value(c: char) -> nat {
    (c as nat - '0' as nat) as nat
}

/// `c` is one of `0` to `9`.
pub open spec fn is_digit(c: char) -> bool {
    '0' <= c && c <= '9'
}

/// The number that the decimal digits `d` spell.
pub open spec fn digits_value(d: Seq<char>) -> nat
    decreases d.len(),
{
    if d.len() == 0 {
        0
    } else {
        digits_value(d.drop_last()) * 10 + digit_value(d.last())
    }
}

/// `s` without one leading `+`.
pub open spec fn unsigned_part(s: Seq<char>) -> Seq<char> {
    if s.len() > 0 && s[0] == '+' {
        s.drop_first()
    } else {
        s
    }
}

/// The unsigned 32-bit number that `s` spells: an optional `+`, then one or more
/// decimal digits, whose value fits in 32 bits.
pub open spec fn parse_u32_spec(s: Seq<char>) -> Option<u32> {
    let d = unsigned_part(s);
    if d.len() > 0 && (forall|i: int| 0 <= i < d.len() ==> is_digit(#[trigger] d[i]))
        && digits_value(d) <= u32::MAX {
        Some(digits_value(d) as u32)
    } else {
        None
    }
}

/// Reads `c[a..b]` as an unsigned 32-bit decimal number.
pub fn parse_u32(c: &Vec<char>, a: usize, b: usize) -> (r: Option<u32>)
    requires
        a <= b <= c@.len(),
    ensures
        r == parse_u32_spec(c@.subrange(a as int, b as int)),
{
    let ghost s = c@.subrange(a as int, b as int);
    let mut i: usize = a;
    if a < b && c[a] == '+' {
        i = a + 1;
    }
    let ghost d = unsigned_part(s);
    assert(d =~= c@.subrange(i as int, b as int));
    let first: usize = i;
    let mut value: u64 = 0;
    let mut over = false;
    let mut digits = true;
    while i < b
        invariant
            a <= first <= i <= b,
            b <= c@.len(),
            d == c@.subrange(first as int, b as int),
            digits <==> (forall|k: int| first <= k < i ==> is_digit(#[trigger] c@[k])),
            digits && !over ==> value == digits_value(c@.subrange(first as int, i as int)),
            digits && over ==> digits_value(c@.subrange(first as int, i as int)) > u32::MAX,
            value <= u32::MAX,
        decreases b - i,
    {
        let ch = c[i];
        let ghost prev = c@.subrange(first as int, i as int);
        assert(c@.subrange(first as int, i + 1).drop_last() =~= prev);
        if '0' <= ch && ch <= '9' {
            if !over {
                let v: u64 = value * 10 + (ch as u64 - '0' as u64);
                if v > u32::MAX as u64 {
                    over = true;
                } else {
                    value = v;
                }
            }
        } else {
            digits = false;
        }
        i += 1;
    }
    assert(c@.subrange(first as int, b as int) == d);
    if first < b && digits && !over {
        assert forall|k: int| 0 <= k < d.len() implies is_digit(#[trigger] d[k]) by {
            assert(d[k] == c@[first + k]);
        }
        assert(value == digits_value(d));
        Some(value as u32)
    } else {
        if first < b && digits {
            assert(digits_value(d) > u32::MAX);
        }
        if first < b && !digits {
            let ghost k = choose|k: int| first <= k < b && !is_digit(#[trigger] c@[k]);
            assert(!is_digit(d[k - first]));
        }
        None
    }
}

/// The decimal spelling of `n`.
pub open spec fn decimal(n: nat) -> Seq<char>
    decreases n,
{
    if n < 10 {
        seq![digit_char(n)]
    } else {
        decimal(n / 10).push(digit_char(n % 10))
    }
}

/// The decimal digit character for `d < 10`.
pub open spec fn digit_char(d: nat) -> char {
    ((d + '0' as nat) as u32) as char
}

/// The one-character string for the digit `d`.
fn digit_str(d: usize) -> (r: &'static str)
    requires
        d < 10,
    ensures
        r@ == seq![digit_char(d as nat)],
{
    proof {
        reveal_strlit("0");
        reveal_strlit("1");
        reveal_strlit("2");
        reveal_strlit("3");
        reveal_strlit("4");
        reveal_strlit("5");
        reveal_strlit("6");
        reveal_strlit("7");
        reveal_strlit("8");
        reveal_strlit("9");
    }
    let r = if d == 0 {
        "0"
    } else if d == 1 {
        "1"
    } else if d == 2 {
        "2"
    } else if d == 3 {
        "3"
    } else if d == 4 {
        "4"
    } else if d == 5 {
        "5"
    } else if d == 6 {
        "6"
    } else if d == 7 {
        "7"
    } else if d == 8 {
        "8"
    } else {
        "9"
    };
    assert(r@ =~= seq![digit_char(d as nat)]);
    r
}

/// Appends the decimal spelling of `n` to `out`.
pub fn push_decimal(out: &mut String, n: usize)
    ensures
        final(out)@ == old(out)@ + decimal(n as nat),
    decreases n,
{
    if n < 10 {
        out.append(digit_str(n));
    } else {
        push_decimal(out, n / 10);
        out.append(digit_str(n % 10));
        assert(decimal((n / 10) as nat).push(digit_char((n % 10) as nat)) =~= seq![]
            + decimal((n / 10) as nat) + seq![digit_char((n % 10) as nat)]);
    }
}

/// `p` is a prefix of `s`.
pub open spec fn starts_with(s: Seq<char>, p: Seq<char>) -> bool {
    p.len() <= s.len() && s.take(p.len() as int) == p
}

/// Whether `c` begins with `p`.
pub fn has_prefix(c: &Vec<char>, p: &Vec<char>) -> (r: bool)
    ensures
        r == starts_with(c@, p@),
{
    if p.len() > c.len() {
        return false;
    }
    let mut i: usize = 0;
    while i < p.len()
        invariant
            p@.len() <= c@.len(),
            i <= p@.len(),
            forall|k: int| 0 <= k < i ==> c@[k] == p@[k],
        decreases p@.len() - i,
    {
        if c[i] != p[i] {
            assert(c@.take(p@.len() as int)[i as int] != p@[i as int]);
            return false;
        }
        i += 1;
    }
    assert(c@.take(p@.len() as int) =~= p@);
    true
}

} // verus!
