//! Text as sequences of characters: splitting, joining, searching and decimal numerals.

use vstd::prelude::*;

verus! {

/// `String::push` appends the given character to the end of the string.
pub assume_specification[ String::push ](s: &mut String, c: char)
    ensures
        final(s)@ == old(s)@.push(c),
;

/// Whether two texts hold the same characters.
pub(crate) fn same(a: &str, b: &str) -> (r: bool)
    ensures
        r == (a@ == b@),
{
    a.to_owned() == b.to_owned()
}

/// The characters of each string.
pub open spec fn views(v: Seq<String>) -> Seq<Seq<char>> {
    Seq::new(v.len(), |i: int| v[i]@)
}

/// The characters of `s`, one by one.
pub fn chars_of(s: &str) -> (r: Vec<char>)
    ensures
        r@ == s@,
{
    let mut r: Vec<char> = Vec::new();
    for c in it: s.chars()
        invariant
            r@ == s@.take(it.index() as int),
            it.seq() == s@,
    {
        proof {
            assert(s@.take(it.index() as int).push(c) =~= s@.take(it.index() as int + 1));
        }
        r.push(c);
    }
    proof {
        assert(s@.take(s@.len() as int) =~= s@);
    }
    r
}

/// The string made of the characters at the places `from..to`.
pub fn string_of_range(chars: &Vec<char>, from: usize, to: usize) -> (r: String)
    requires
        from <= to <= chars@.len(),
    ensures
        r@ == chars@.subrange(from as int, to as int),
{
    let mut r = String::new();
    let mut i: usize = from;
    while i < to
        invariant
            from <= i <= to <= chars@.len(),
            r@ == chars@.subrange(from as int, i as int),
        decreases to - i,
    {
        r.push(chars[i]);
        proof {
            assert(chars@.subrange(from as int, i as int).push(chars@[i as int])
                =~= chars@.subrange(from as int, i as int + 1));
        }
        i = i + 1;
    }
    r
}

/// `p` stands in `s` at the place `i`.
pub open spec fn stands_at(s: Seq<char>, p: Seq<char>, i: int) -> bool {
    0 <= i && i + p.len() <= s.len() && s.subrange(i, i + p.len()) == p
}

/// `p` stands somewhere in `s`.
pub open spec fn has(s: Seq<char>, p: Seq<char>) -> bool {
    exists|i: int| #[trigger] stands_at(s, p, i)
}

pub open spec fn begins(s: Seq<char>, p: Seq<char>) -> bool {
    stands_at(s, p, 0)
}

pub open spec fn ends(s: Seq<char>, p: Seq<char>) -> bool {
    stands_at(s, p, s.len() - p.len())
}

/// Whether `p` stands in `s` at the place `i`.
pub fn matches_at(s: &Vec<char>, p: &Vec<char>, i: usize) -> (r: bool)
    ensures
        r == stands_at(s@, p@, i as int),
{
    if i > s.len() || p.len() > s.len() - i {
        return false;
    }
    let mut k: usize = 0;
    while k < p.len()
        invariant
            k <= p@.len(),
            i + p.len() <= s.len(),
            forall|j: int| 0 <= j < k ==> s@[i + j] == p@[j],
        decreases p@.len() - k,
    {
        if s[i + k] != p[k] {
            proof {
                assert(s@.subrange(i as int, i + p@.len())[k as int] != p@[k as int]);
            }
            return false;
        }
        k = k + 1;
    }
    proof {
        assert(s@.subrange(i as int, i + p@.len()) =~= p@);
    }
    true
}

pub fn starts_with(s: &str, p: &str) -> (r: bool)
    ensures
        r == begins(s@, p@),
{
    matches_at(&chars_of(s), &chars_of(p), 0)
}

pub fn ends_with(s: &str, p: &str) -> (r: bool)
    ensures
        r == ends(s@, p@),
{
    let cs = chars_of(s);
    let cp = chars_of(p);
    if cp.len() > cs.len() {
        false
    } else {
        matches_at(&cs, &cp, cs.len() - cp.len())
    }
}

pub fn contains(s: &str, p: &str) -> (r: bool)
    ensures
        r == has(s@, p@),
{
    let cs = chars_of(s);
    let cp = chars_of(p);
    let mut i: usize = 0;
    while i < cs.len()
        invariant
            i <= cs@.len(),
            cs@ == s@,
            cp@ == p@,
            forall|j: int| 0 <= j < i ==> !#[trigger] stands_at(s@, p@, j),
        decreases cs@.len() - i,
    {
        if matches_at(&cs, &cp, i) {
            return true;
        }
        i = i + 1;
    }
    let r = matches_at(&cs, &cp, i);
    r
}

/// What follows the prefix `p`, where `s` begins with it.
pub open spec fn without_prefix(s: Seq<char>, p: Seq<char>) -> Option<Seq<char>> {
    if begins(s, p) {
        Some(s.skip(p.len() as int))
    } else {
        None
    }
}

pub fn strip_prefix(s: &str, p: &str) -> (r: Option<String>)
    ensures
        match r {
            Some(rest) => without_prefix(s@, p@) == Some(rest@),
            None => without_prefix(s@, p@) is None,
        },
{
    let cs = chars_of(s);
    let cp = chars_of(p);
    if matches_at(&cs, &cp, 0) {
        let rest = string_of_range(&cs, cp.len(), cs.len());
        proof {
            assert(rest@ =~= s@.skip(p@.len() as int));
        }
        Some(rest)
    } else {
        None
    }
}

/// What precedes the suffix `p`, where `s` ends with it.
pub open spec fn without_suffix(s: Seq<char>, p: Seq<char>) -> Option<Seq<char>> {
    if ends(s, p) {
        Some(s.take(s.len() - p.len()))
    } else {
        None
    }
}

pub fn strip_suffix(s: &str, p: &str) -> (r: Option<String>)
    ensures
        match r {
            Some(rest) => without_suffix(s@, p@) == Some(rest@),
            None => without_suffix(s@, p@) is None,
        },
{
    let cs = chars_of(s);
    let cp = chars_of(p);
    if cp.len() <= cs.len() && matches_at(&cs, &cp, cs.len() - cp.len()) {
        let rest = string_of_range(&cs, 0, cs.len() - cp.len());
        proof {
            assert(rest@ =~= s@.take(s@.len() - p@.len()));
        }
        Some(rest)
    } else {
        None
    }
}

/// The parts of `s` between the separators `c`, empty ones included: one part more than
/// there are separators.
pub open spec fn split(s: Seq<char>, c: char) -> Seq<Seq<char>>
    decreases s.len(),
{
    if s.len() == 0 {
        seq![Seq::<char>::empty()]
    } else {
        let head = split(s.drop_last(), c);
        if s.last() == c {
            head.push(Seq::<char>::empty())
        } else {
            head.drop_last().push(head.last().push(s.last()))
        }
    }
}

/// The parts one after another, with `sep` between each two.
pub open spec fn join(parts: Seq<Seq<char>>, sep: Seq<char>) -> Seq<char>
    decreases parts.len(),
{
    if parts.len() == 0 {
        Seq::empty()
    } else if parts.len() == 1 {
        parts[0]
    } else {
        join(parts.drop_last(), sep) + sep + parts.last()
    }
}

pub proof fn split_is_not_empty(s: Seq<char>, c: char)
    ensures
        split(s, c).len() >= 1,
    decreases s.len(),
{
    if s.len() > 0 {
        split_is_not_empty(s.drop_last(), c);
    }
}

/// Joining the parts of a text with the separator gives the text back.
pub proof fn join_undoes_split(s: Seq<char>, c: char)
    ensures
        join(split(s, c), seq![c]) == s,
    decreases s.len(),
{
    if s.len() == 0 {
        assert(join(split(s, c), seq![c]) =~= s);
    } else {
        let t = s.drop_last();
        join_undoes_split(t, c);
        split_is_not_empty(t, c);
        let head = split(t, c);
        if s.last() == c {
            let all = head.push(Seq::<char>::empty());
            assert(all.drop_last() =~= head);
            assert(join(all, seq![c]) =~= s);
        } else {
            let all = head.drop_last().push(head.last().push(s.last()));
            assert(all.drop_last() =~= head.drop_last());
            if head.len() > 1 {
                let before = join(head.drop_last(), seq![c]) + seq![c];
                assert(join(head, seq![c]) == before + head.last());
                assert(join(all, seq![c]) == before + head.last().push(s.last()));
            }
            assert(join(all, seq![c]) =~= t.push(s.last()));
        }
    }
}

/// No part of a split text holds the separator.
pub proof fn split_parts_hold_no_separator(s: Seq<char>, c: char)
    ensures
        forall|i: int| 0 <= i < split(s, c).len() ==> !(#[trigger] split(s, c)[i]).contains(c),
    decreases s.len(),
{
    if s.len() > 0 {
        let t = s.drop_last();
        split_parts_hold_no_separator(t, c);
        split_is_not_empty(t, c);
        let head = split(t, c);
        assert forall|i: int| 0 <= i < split(s, c).len() implies !(#[trigger] split(
            s,
            c,
        )[i]).contains(c) by {
            if s.last() != c && i == split(s, c).len() - 1 {
                let last = head.last();
                assert(!last.contains(c));
                assert forall|k: int| 0 <= k < last.push(s.last()).len() implies last.push(
                    s.last(),
                )[k] != c by {
                    if k < last.len() {
                        assert(last[k] == last.push(s.last())[k]);
                    }
                }
            } else if i < head.len() {
                assert(!head[i].contains(c));
            }
        }
    }
}

pub fn split_on(s: &str, c: char) -> (r: Vec<String>)
    ensures
        views(r@) == split(s@, c),
        r@.len() >= 1,
{
    let cs = chars_of(s);
    let mut r: Vec<String> = Vec::new();
    let mut start: usize = 0;
    let mut i: usize = 0;
    proof {
        assert(cs@.take(0) =~= Seq::empty());
        assert(views(r@).push(cs@.subrange(0, 0)) =~= seq![Seq::<char>::empty()]);
    }
    while i < cs.len()
        invariant
            start <= i <= cs@.len(),
            views(r@).push(cs@.subrange(start as int, i as int)) == split(cs@.take(i as int), c),
        decreases cs@.len() - i,
    {
        let ghost before = split(cs@.take(i as int), c);
        let ghost part = cs@.subrange(start as int, i as int);
        let ghost parts = views(r@);
        let ghost step = cs@.take(i as int + 1);
        proof {
            assert(step.drop_last() =~= cs@.take(i as int));
            assert(before.drop_last() =~= parts);
            assert(before.last() == part);
        }
        if cs[i] == c {
            r.push(string_of_range(&cs, start, i));
            start = i + 1;
            proof {
                assert(views(r@) =~= parts.push(part));
                assert(cs@.subrange(start as int, i as int + 1) =~= Seq::<char>::empty());
            }
        } else {
            proof {
                assert(cs@.subrange(start as int, i as int + 1) =~= part.push(cs@[i as int]));
            }
        }
        i = i + 1;
    }
    let ghost parts = views(r@);
    r.push(string_of_range(&cs, start, cs.len()));
    proof {
        assert(cs@.take(cs@.len() as int) =~= cs@);
        assert(views(r@) =~= parts.push(cs@.subrange(start as int, cs@.len() as int)));
    }
    r
}

/// The first `n` of the given parts, joined with `sep`.
pub fn join_first(parts: &Vec<String>, n: usize, sep: &str) -> (r: String)
    requires
        n <= parts@.len(),
    ensures
        r@ == join(views(parts@).take(n as int), sep@),
{
    let mut r = String::new();
    let mut i: usize = 0;
    proof {
        assert(r@ =~= join(views(parts@).take(0), sep@));
    }
    while i < n
        invariant
            i <= n <= parts@.len(),
            r@ == join(views(parts@).take(i as int), sep@),
        decreases n - i,
    {
        proof {
            let next = views(parts@).take(i as int + 1);
            assert(next.drop_last() =~= views(parts@).take(i as int));
            assert(next.last() == parts@[i as int]@);
        }
        if i > 0 {
            r.append(sep);
        }
        r.append(parts[i].as_str());
        proof {
            assert(r@ =~= join(views(parts@).take(i as int + 1), sep@));
        }
        i = i + 1;
    }
    r
}

pub fn join_all(parts: &Vec<String>, sep: &str) -> (r: String)
    ensures
        r@ == join(views(parts@), sep@),
{
    proof {
        assert(views(parts@).take(parts@.len() as int) =~= views(parts@));
    }
    join_first(parts, parts.len(), sep)
}

/// `a` followed by `b`.
pub fn concat2(a: &str, b: &str) -> (r: String)
    ensures
        r@ == a@ + b@,
{
    let mut r = a.to_owned();
    r.append(b);
    r
}

/// `a`, `b` and `c` one after another.
pub fn concat3(a: &str, b: &str, c: &str) -> (r: String)
    ensures
        r@ == a@ + b@ + c@,
{
    let mut r = a.to_owned();
    r.append(b);
    r.append(c);
    r
}

/// The character that stands for a digit.
pub open spec fn digit_char(d: int) -> char {
    (48 + d) as char
}

/// The decimal numeral of `n`, without leading zeros.
pub open spec fn dec(n: int) -> Seq<char>
    decreases n,
{
    if n < 10 {
        seq![digit_char(n)]
    } else {
        dec(n / 10).push(digit_char(n % 10))
    }
}

/// The decimal numeral of `n`, with a sign where `n` is negative.
pub open spec fn dec_signed(n: int) -> Seq<char> {
    if n < 0 {
        seq!['-'] + dec(-n)
    } else {
        dec(n)
    }
}

pub(crate) fn digit(d: u64) -> (r: char)
    requires
        d < 10,
    ensures
        r == digit_char(d as int),
{
    (48 + d as u8) as char
}

pub fn decimal(n: u64) -> (r: String)
    ensures
        r@ == dec(n as int),
    decreases n,
{
    if n < 10 {
        let mut r = String::new();
        r.push(digit(n));
        proof {
            assert(r@ =~= dec(n as int));
        }
        r
    } else {
        let mut r = decimal(n / 10);
        r.push(digit(n % 10));
        r
    }
}

/// The decimal numeral of a number of up to 128 bits.
pub fn decimal_wide(n: u128) -> (r: String)
    ensures
        r@ == dec(n as int),
    decreases n,
{
    if n <= u64::MAX as u128 {
        decimal(n as u64)
    } else {
        let mut r = decimal_wide(n / 10);
        r.push(digit((n % 10) as u64));
        r
    }
}

pub fn decimal_signed(n: i64) -> (r: String)
    ensures
        r@ == dec_signed(n as int),
{
    if n >= 0 {
        decimal(n as u64)
    } else {
        let magnitude: u64 = if n == i64::MIN {
            0x8000_0000_0000_0000
        } else {
            (-n) as u64
        };
        let mut r = String::new();
        r.push('-');
        let digits = decimal(magnitude);
        r.append(digits.as_str());
        proof {
            assert(r@ =~= dec_signed(n as int));
        }
        r
    }
}

pub open spec fn is_digit(c: char) -> bool {
    '0' <= c && c <= '9'
}

pub open spec fn all_digits(s: Seq<char>) -> bool {
    forall|i: int| 0 <= i < s.len() ==> is_digit(#[trigger] s[i])
}

/// The number that a row of digits stands for.
pub open spec fn digits_value(s: Seq<char>) -> int
    decreases s.len(),
{
    if s.len() == 0 {
        0
    } else {
        10 * digits_value(s.drop_last()) + (s.last() as int - 48)
    }
}

/// What a numeral stands for: digits, at least one, after an optional plus sign, with a value
/// of at most `max`.
pub open spec fn numeral(s: Seq<char>, max: int) -> Option<int> {
    let body = if s.len() > 0 && s[0] == '+' {
        s.skip(1)
    } else {
        s
    };
    if body.len() > 0 && all_digits(body) && digits_value(body) <= max {
        Some(digits_value(body))
    } else {
        None
    }
}

proof fn digits_value_grows(s: Seq<char>, n: int)
    requires
        all_digits(s),
        0 <= n <= s.len(),
    ensures
        0 <= digits_value(s.take(n)) <= digits_value(s),
    decreases s.len() - n,
{
    if n == s.len() {
        assert(s.take(n) =~= s);
        digits_value_is_natural(s);
    } else {
        digits_value_grows(s, n + 1);
        assert(s.take(n + 1).drop_last() =~= s.take(n));
        assert(is_digit(s[n]));
        digits_value_is_natural(s.take(n));
    }
}

proof fn digits_value_is_natural(s: Seq<char>)
    requires
        all_digits(s),
    ensures
        0 <= digits_value(s),
    decreases s.len(),
{
    if s.len() > 0 {
        assert(is_digit(s.last()));
        digits_value_is_natural(s.drop_last());
    }
}

/// Reads a numeral of a number that is at most `max`.
pub fn parse_number(s: &str, max: u64) -> (r: Option<u64>)
    ensures
        match r {
            Some(n) => numeral(s@, max as int) == Some(n as int),
            None => numeral(s@, max as int) is None,
        },
{
    let cs = chars_of(s);
    let start: usize = if cs.len() > 0 && cs[0] == '+' {
        1
    } else {
        0
    };
    let ghost body = if s@.len() > 0 && s@[0] == '+' {
        s@.skip(1)
    } else {
        s@
    };
    proof {
        assert(body =~= s@.skip(start as int));
        assert(body.take(0) =~= Seq::empty());
    }
    if start == cs.len() {
        return None;
    }
    let mut i: usize = start;
    let mut n: u64 = 0;
    while i < cs.len()
        invariant
            start <= i <= cs@.len(),
            cs@ == s@,
            body == s@.skip(start as int),
            all_digits(body.take(i - start)),
            n == digits_value(body.take(i - start)),
            n <= max,
            numeral(s@, max as int) == (if body.len() > 0 && all_digits(body) && digits_value(body)
                <= max {
                Some(digits_value(body))
            } else {
                None
            }),
        decreases cs@.len() - i,
    {
        let c = cs[i];
        let ghost k = i - start;
        proof {
            assert(body[k] == c);
            assert(body.take(k + 1).drop_last() =~= body.take(k));
            assert(body.take(k + 1).last() == c);
        }
        if c < '0' || c > '9' {
            return None;
        }
        let d: u64 = c as u64 - 48;
        proof {
            if all_digits(body) {
                digits_value_grows(body, k + 1);
            }
        }
        if n > (u64::MAX - d) / 10 {
            return None;
        }
        let next: u64 = 10 * n + d;
        if next > max {
            return None;
        }
        proof {
            assert forall|j: int| 0 <= j < body.take(k + 1).len() implies is_digit(
                #[trigger] body.take(k + 1)[j],
            ) by {
                if j < k {
                    assert(body.take(k)[j] == body.take(k + 1)[j]);
                }
            }
        }
        n = next;
        i = i + 1;
    }
    proof {
        assert(body.take(cs@.len() - start) =~= body);
    }
    Some(n)
}

proof fn dec_is_digits(n: int)
    requires
        n >= 0,
    ensures
        dec(n).len() > 0,
        all_digits(dec(n)),
        digits_value(dec(n)) == n,
    decreases n,
{
    if n < 10 {
        let s = dec(n);
        assert(s.drop_last() =~= Seq::empty());
        assert(digits_value(s.drop_last()) == 0);
    } else {
        dec_is_digits(n / 10);
        let s = dec(n);
        assert(s.drop_last() =~= dec(n / 10));
        assert forall|i: int| 0 <= i < s.len() implies is_digit(#[trigger] s[i]) by {
            if i < s.len() - 1 {
                assert(dec(n / 10)[i] == s[i]);
            }
        }
    }
}

/// Reading the decimal numeral of a number gives the number back.
pub proof fn numeral_reads_dec(n: int, max: int)
    requires
        0 <= n <= max,
    ensures
        numeral(dec(n), max) == Some(n),
        all_digits(dec(n)),
{
    dec_is_digits(n);
    assert(is_digit(dec(n)[0]));
}

/// A text without the separator is its own only part.
pub proof fn split_of_plain(s: Seq<char>, c: char)
    requires
        !s.contains(c),
    ensures
        split(s, c) == seq![s],
    decreases s.len(),
{
    if s.len() > 0 {
        let t = s.drop_last();
        assert(s.contains(s[s.len() - 1]));
        assert forall|i: int| 0 <= i < t.len() implies t[i] != c by {
            assert(s.contains(s[i]));
        }
        split_of_plain(t, c);
        assert(split(s, c) =~= seq![t.push(s.last())]);
        assert(t.push(s.last()) =~= s);
    } else {
        assert(s =~= Seq::empty());
    }
}

/// Two texts with a separator between them have the parts of the one and then of the other.
pub proof fn split_of_joined(a: Seq<char>, b: Seq<char>, c: char)
    ensures
        split(a + seq![c] + b, c) == split(a, c) + split(b, c),
    decreases b.len(),
{
    let s = a + seq![c] + b;
    split_is_not_empty(a, c);
    split_is_not_empty(b, c);
    if b.len() == 0 {
        assert(s.drop_last() =~= a);
        assert(split(b, c) =~= seq![Seq::<char>::empty()]);
        assert(split(s, c) =~= split(a, c) + split(b, c));
    } else {
        let t = b.drop_last();
        assert(s.drop_last() =~= a + seq![c] + t);
        split_of_joined(a, t, c);
        split_is_not_empty(t, c);
        if b.last() == c {
            assert(split(s, c) =~= split(a, c) + split(b, c));
        } else {
            assert(split(s, c) =~= split(a, c) + split(b, c));
        }
    }
}

/// Splitting gives joined parts back, where none of them holds the separator.
pub proof fn split_undoes_join(parts: Seq<Seq<char>>, c: char)
    requires
        parts.len() > 0,
        forall|i: int| 0 <= i < parts.len() ==> !(#[trigger] parts[i]).contains(c),
    ensures
        split(join(parts, seq![c]), c) == parts,
    decreases parts.len(),
{
    let last = parts.last();
    assert(!parts[parts.len() - 1].contains(c));
    split_of_plain(last, c);
    if parts.len() == 1 {
        assert(parts =~= seq![last]);
    } else {
        let head = parts.drop_last();
        assert forall|i: int| 0 <= i < head.len() implies !(#[trigger] head[i]).contains(c) by {
            assert(head[i] == parts[i]);
        }
        split_undoes_join(head, c);
        split_of_joined(join(head, seq![c]), last, c);
        assert(parts =~= head + seq![last]);
    }
}

/// A text that holds the separator has more than one part.
pub proof fn split_of_holder(s: Seq<char>, c: char)
    requires
        s.contains(c),
    ensures
        split(s, c).len() >= 2,
{
    let i = s.index_of(c);
    assert(s =~= s.take(i) + seq![c] + s.skip(i + 1));
    split_of_joined(s.take(i), s.skip(i + 1), c);
    split_is_not_empty(s.take(i), c);
    split_is_not_empty(s.skip(i + 1), c);
}

/// What follows a text that ends in a separator, or an empty one, adds its parts to the finished
/// ones.
pub proof fn split_after_separator(
    a: Seq<char>,
    b: Seq<char>,
    c: char,
    finished: Seq<Seq<char>>,
)
    requires
        split(a, c) == finished.push(Seq::<char>::empty()),
    ensures
        split(a + b, c) == finished + split(b, c),
    decreases b.len(),
{
    split_is_not_empty(b, c);
    if b.len() == 0 {
        assert(a + b =~= a);
        assert(split(b, c) =~= seq![Seq::<char>::empty()]);
        assert(split(a + b, c) =~= finished + split(b, c));
    } else {
        let t = b.drop_last();
        split_after_separator(a, t, c, finished);
        split_is_not_empty(t, c);
        assert((a + b).drop_last() =~= a + t);
        assert((a + b).last() == b.last());
        assert(split(a + b, c) =~= finished + split(b, c));
    }
}

/// A line without the carriage return at its end.
pub open spec fn chomped(line: Seq<char>) -> Seq<char> {
    if line.len() > 0 && line.last() == '\r' {
        line.drop_last()
    } else {
        line
    }
}

/// The lines of a text: what stands before each line feed, without a carriage return there, and
/// what stands after the last one, unless that is nothing.
pub open spec fn text_lines(s: Seq<char>) -> Seq<Seq<char>> {
    let parts = split(s, '\n');
    let n = parts.len() - 1;
    let ended = Seq::new(n as nat, |i: int| chomped(parts[i]));
    if parts[n].len() == 0 {
        ended
    } else {
        ended.push(parts[n])
    }
}

pub fn lines(s: &str) -> (r: Vec<String>)
    ensures
        views(r@) == text_lines(s@),
{
    let parts = split_on(s, '\n');
    let ghost all = split(s@, '\n');
    let n: usize = parts.len() - 1;
    let mut r: Vec<String> = Vec::new();
    let mut i: usize = 0;
    while i < n
        invariant
            i <= n,
            n + 1 == parts@.len(),
            views(parts@) == all,
            views(r@) =~= Seq::new(i as nat, |k: int| chomped(all[k])),
        decreases n - i,
    {
        let ghost before = views(r@);
        let line = match strip_suffix(parts[i].as_str(), "\r") {
            Some(rest) => rest,
            None => parts[i].clone(),
        };
        proof {
            reveal_strlit("\r");
            assert(all[i as int] == parts@[i as int]@);
            let p = all[i as int];
            assert("\r"@ =~= seq!['\r']);
            if p.len() > 0 {
                assert(p.subrange(p.len() - 1, p.len() as int) =~= seq![p.last()]);
                assert(p.take(p.len() - 1) =~= p.drop_last());
                assert(seq![p.last()][0] == p.last());
                assert("\r"@[0] == '\r');
                assert(ends(p, "\r"@) == (p.last() == '\r'));
            }
            assert(line@ == chomped(p));
        }
        r.push(line);
        proof {
            assert(views(r@) =~= before.push(line@));
        }
        i = i + 1;
    }
    let ghost before = views(r@);
    if !parts[n].as_str().is_empty() {
        let last = parts[n].clone();
        r.push(last);
        proof {
            assert(views(r@) =~= before.push(last@));
        }
    }
    proof {
        assert(all[n as int] == parts@[n as int]@);
        assert(views(r@) =~= text_lines(s@));
    }
    r
}

/// `a` comes before `b` in a dictionary that goes by the numbers of the characters.
pub open spec fn precedes(a: Seq<char>, b: Seq<char>) -> bool
    decreases a.len(),
{
    if b.len() == 0 {
        false
    } else if a.len() == 0 {
        true
    } else if a[0] != b[0] {
        a[0] < b[0]
    } else {
        precedes(a.skip(1), b.skip(1))
    }
}

pub proof fn precedes_is_transitive(a: Seq<char>, b: Seq<char>, c: Seq<char>)
    requires
        precedes(a, b),
        precedes(b, c),
    ensures
        precedes(a, c),
    decreases a.len(),
{
    if a.len() > 0 && a[0] == b[0] && b[0] == c[0] {
        precedes_is_transitive(a.skip(1), b.skip(1), c.skip(1));
    }
}

pub proof fn precedes_is_total(a: Seq<char>, b: Seq<char>)
    ensures
        precedes(a, b) || precedes(b, a) || a == b,
        !(precedes(a, b) && precedes(b, a)),
        !precedes(a, a),
    decreases a.len(),
{
    if a.len() > 0 {
        precedes_is_total(a.skip(1), a.skip(1));
    }
    if a.len() > 0 && b.len() > 0 && a[0] == b[0] {
        precedes_is_total(a.skip(1), b.skip(1));
        if a.skip(1) == b.skip(1) {
            assert(a =~= seq![a[0]] + a.skip(1));
            assert(b =~= seq![b[0]] + b.skip(1));
        }
    } else if a.len() == 0 && b.len() == 0 {
        assert(a =~= b);
    }
}

/// Whether `a` comes before `b` in a dictionary.
pub fn comes_before(a: &str, b: &str) -> (r: bool)
    ensures
        r == precedes(a@, b@),
{
    let ca = chars_of(a);
    let cb = chars_of(b);
    let mut i: usize = 0;
    proof {
        assert(ca@.skip(0) =~= ca@);
        assert(cb@.skip(0) =~= cb@);
    }
    loop
        invariant
            i <= ca@.len(),
            i <= cb@.len(),
            ca@ == a@,
            cb@ == b@,
            precedes(a@, b@) == precedes(ca@.skip(i as int), cb@.skip(i as int)),
        decreases ca@.len() - i,
    {
        if i == cb.len() {
            return false;
        }
        if i == ca.len() {
            return true;
        }
        if ca[i] != cb[i] {
            return ca[i] < cb[i];
        }
        proof {
            assert(ca@.skip(i as int).skip(1) =~= ca@.skip(i as int + 1));
            assert(cb@.skip(i as int).skip(1) =~= cb@.skip(i as int + 1));
        }
        i = i + 1;
    }
}

/// What a numeral of a 32-bit integer stands for: digits, at least one, after an optional sign.
pub open spec fn signed_numeral(s: Seq<char>) -> Option<int> {
    if s.len() > 0 && s[0] == '-' {
        let body = s.skip(1);
        if body.len() > 0 && all_digits(body) && digits_value(body) <= 0x8000_0000 {
            Some(-digits_value(body))
        } else {
            None
        }
    } else {
        numeral(s, i32::MAX as int)
    }
}

pub fn parse_i32(s: &str) -> (r: Option<i32>)
    ensures
        match r {
            Some(n) => signed_numeral(s@) == Some(n as int),
            None => signed_numeral(s@) is None,
        },
{
    match strip_prefix(s, "-") {
        Some(rest) => {
            proof {
                reveal_strlit("-");
                assert("-"@ =~= seq!['-']);
                assert(s@.subrange(0, 1)[0] == s@[0]);
                assert(rest@ == s@.skip(1));
            }
            if starts_with(rest.as_str(), "+") {
                proof {
                    reveal_strlit("+");
                    assert(rest@.subrange(0, 1)[0] == rest@[0]);
                    assert("+"@[0] == '+');
                    assert(!is_digit(rest@[0]));
                }
                return None;
            }
            proof {
                reveal_strlit("+");
                if rest@.len() > 0 && rest@[0] == '+' {
                    assert(rest@.subrange(0, 1) =~= "+"@);
                }
            }
            match parse_number(rest.as_str(), 0x8000_0000) {
                Some(n) => {
                    let m: i64 = -(n as i64);
                    Some(m as i32)
                },
                None => None,
            }
        },
        None => {
            proof {
                reveal_strlit("-");
                if s@.len() > 0 && s@[0] == '-' {
                    assert(s@.subrange(0, 1) =~= "-"@);
                }
            }
            match parse_number(s, 0x7fff_ffff) {
                Some(n) => Some(n as i32),
                None => None,
            }
        },
    }
}

/// Reading the decimal numeral of a 32-bit integer gives the integer back.
pub proof fn signed_numeral_reads_dec(n: int)
    requires
        i32::MIN <= n <= i32::MAX,
    ensures
        signed_numeral(dec_signed(n)) == Some(n),
{
    if n < 0 {
        dec_is_digits(-n);
        let s = dec_signed(n);
        assert(s.skip(1) =~= dec(-n));
    } else {
        numeral_reads_dec(n, i32::MAX as int);
        dec_is_digits(n);
        assert(is_digit(dec(n)[0]));
    }
}

/// What a sequence holds after one more element.
pub proof fn push_contains<A>(s: Seq<A>, a: A)
    ensures
        forall|x: A| #[trigger] s.push(a).contains(x) <==> (s.contains(x) || x == a),
{
    assert forall|x: A| #[trigger] s.push(a).contains(x) <==> (s.contains(x) || x == a) by {
        if s.contains(x) {
            let j = choose|j: int| 0 <= j < s.len() && #[trigger] s[j] == x;
            assert(s.push(a)[j] == x);
        }
        if x == a {
            assert(s.push(a)[s.len() as int] == x);
        }
    }
}

/// A sequence without duplicates stays so after a new element.
pub proof fn push_no_duplicates<A>(s: Seq<A>, a: A)
    requires
        s.no_duplicates(),
        !s.contains(a),
    ensures
        s.push(a).no_duplicates(),
{
    let t = s.push(a);
    assert forall|i: int, j: int|
        0 <= i < t.len() && 0 <= j < t.len() && i != j implies t[i] != t[j] by {
        if i < s.len() && j < s.len() {
            assert(s[i] != s[j]);
        } else if i < s.len() {
            assert(s.contains(s[i]));
        } else {
            assert(s.contains(s[j]));
        }
    }
}

/// A text that is put together holds its middle, and ends in it where nothing follows.
pub proof fn joined_text_holds_its_parts(a: Seq<char>, m: Seq<char>, b: Seq<char>)
    ensures
        has(a + m + b, m),
        ends(a + m, m),
        begins(a + m, a),
{
    assert((a + m + b).subrange(a.len() as int, a.len() as int + m.len()) =~= m);
    assert(stands_at(a + m + b, m, a.len() as int));
    assert((a + m).subrange(a.len() as int, (a + m).len() as int) =~= m);
    assert((a + m).subrange(0, a.len() as int) =~= a);
}

} // verus!
