//! Character-level building blocks shared by the textual forms: decimal and
//! hexadecimal numbers, and splitting a text at a separator.
use vstd::prelude::*;

verus! {

/// `String::push` of the standard library: appends the character, so that the
/// characters of the string afterwards are those before and the new one.
pub assume_specification[ String::push ](s: &mut String, c: char)
    ensures
        final(s)@ == old(s)@.push(c),
;

pub open spec fn is_digit(c: char) -> bool {
    '0' <= c && c <= '9'
}

pub open spec fn digit_value(c: char) -> nat {
    (c as int - '0' as int) as nat
}

pub open spec fn digit_char(d: nat) -> char {
    (d + '0' as nat) as char
}

pub open spec fn all_digits(s: Seq<char>) -> bool {
    forall|i: int| 0 <= i < s.len() ==> is_digit(#[trigger] s[i])
}

/// The number that a text of decimal digits denotes, leading zeros allowed.
pub open spec fn decimal_value(s: Seq<char>) -> nat
    decreases s.len(),
{
    if s.len() == 0 {
        0
    } else {
        decimal_value(s.drop_last()) * 10 + digit_value(s.last())
    }
}

/// The shortest decimal text of a number.
pub open spec fn decimal_text(n: nat) -> Seq<char>
    decreases n,
{
    if n < 10 {
        seq![digit_char(n)]
    } else {
        decimal_text(n / 10).push(digit_char(n % 10))
    }
}

pub open spec fn zeros(k: nat) -> Seq<char> {
    Seq::new(k, |i: int| '0')
}

/// The decimal text of a number, filled with zeros on the left up to `width`
/// characters.
pub open spec fn padded_decimal_text(n: nat, width: nat) -> Seq<char> {
    let t = decimal_text(n);
    if t.len() >= width {
        t
    } else {
        zeros((width - t.len()) as nat) + t
    }
}

pub open spec fn is_hex_digit(c: char) -> bool {
    ('0' <= c && c <= '9') || ('a' <= c && c <= 'f') || ('A' <= c && c <= 'F')
}

pub open spec fn hex_digit_value(c: char) -> nat {
    if '0' <= c && c <= '9' {
        (c as int - '0' as int) as nat
    } else if 'a' <= c && c <= 'f' {
        (c as int - 'a' as int + 10) as nat
    } else {
        (c as int - 'A' as int + 10) as nat
    }
}

pub open spec fn all_hex_digits(s: Seq<char>) -> bool {
    forall|i: int| 0 <= i < s.len() ==> is_hex_digit(#[trigger] s[i])
}

/// The number that a text of hexadecimal digits denotes.
pub open spec fn hex_value(s: Seq<char>) -> nat
    decreases s.len(),
{
    if s.len() == 0 {
        0
    } else {
        hex_value(s.drop_last()) * 16 + hex_digit_value(s.last())
    }
}

/// Index of the first occurrence of `c` in `s`, or the length of `s` where
/// there is none.
pub open spec fn find(s: Seq<char>, c: char) -> nat
    decreases s.len(),
{
    if s.len() == 0 {
        0
    } else if s[0] == c {
        0
    } else {
        1 + find(s.drop_first(), c)
    }
}

/// The pieces of `s` between the occurrences of `sep`. A text without the
/// separator is one piece; the empty text is one empty piece.
pub open spec fn split(s: Seq<char>, sep: char) -> Seq<Seq<char>>
    decreases s.len(),
{
    let k = find(s, sep);
    if k >= s.len() {
        seq![s]
    } else {
        seq![s.take(k as int)] + split(s.skip(k as int + 1), sep)
    }
}

/// The pieces put together again with `sep` between them.
pub open spec fn join(parts: Seq<Seq<char>>, sep: char) -> Seq<char>
    decreases parts.len(),
{
    if parts.len() == 0 {
        Seq::empty()
    } else if parts.len() == 1 {
        parts[0]
    } else {
        parts[0] + seq![sep] + join(parts.drop_first(), sep)
    }
}

pub open spec fn free_of(s: Seq<char>, c: char) -> bool {
    forall|i: int| 0 <= i < s.len() ==> #[trigger] s[i] != c
}

pub proof fn lemma_find(s: Seq<char>, c: char)
    ensures
        find(s, c) <= s.len(),
        forall|i: int| 0 <= i < find(s, c) ==> #[trigger] s[i] != c,
        find(s, c) < s.len() ==> s[find(s, c) as int] == c,
    decreases s.len(),
{
    if s.len() > 0 && s[0] != c {
        let t = s.drop_first();
        lemma_find(t, c);
        assert forall|i: int| 0 <= i < find(s, c) implies #[trigger] s[i] != c by {
            if i > 0 {
                assert(t[i - 1] == s[i]);
            }
        }
        if find(s, c) < s.len() {
            assert(t[find(t, c) as int] == s[find(t, c) as int + 1]);
        }
    }
}

pub proof fn lemma_find_is(s: Seq<char>, c: char, k: int)
    requires
        0 <= k <= s.len(),
        forall|i: int| 0 <= i < k ==> #[trigger] s[i] != c,
        k < s.len() ==> s[k] == c,
    ensures
        find(s, c) == k,
{
    lemma_find(s, c);
    let f = find(s, c) as int;
    if f < k {
        assert(s[f] != c);
    }
    if k < f {
        assert(s[k] != c);
    }
}

/// Splitting what `join` made gives the pieces back, as long as no piece
/// holds the separator.
pub proof fn lemma_split_join(parts: Seq<Seq<char>>, sep: char)
    requires
        parts.len() > 0,
        forall|i: int| 0 <= i < parts.len() ==> free_of(#[trigger] parts[i], sep),
    ensures
        split(join(parts, sep), sep) == parts,
    decreases parts.len(),
{
    let s = join(parts, sep);
    if parts.len() == 1 {
        assert(free_of(parts[0], sep));
        lemma_find_is(s, sep, s.len() as int);
        assert(split(s, sep) == seq![s]);
        assert(seq![s] =~= parts);
    } else {
        let head = parts[0];
        let rest = parts.drop_first();
        assert(free_of(head, sep));
        assert forall|i: int| 0 <= i < rest.len() implies free_of(#[trigger] rest[i], sep) by {
            assert(rest[i] == parts[i + 1]);
        }
        lemma_split_join(rest, sep);
        let k = head.len() as int;
        assert(s == head + seq![sep] + join(rest, sep));
        assert forall|i: int| 0 <= i < k implies #[trigger] s[i] != sep by {
            assert(s[i] == head[i]);
        }
        assert(s[k] == sep);
        lemma_find_is(s, sep, k);
        assert(s.take(k) =~= head);
        assert(s.skip(k + 1) =~= join(rest, sep));
        assert(split(s, sep) == seq![head] + split(join(rest, sep), sep));
        assert(seq![head] + rest =~= parts);
    }
}

/// Joining one more piece appends the separator and the piece.
pub proof fn lemma_join_push(parts: Seq<Seq<char>>, piece: Seq<char>, sep: char)
    requires
        parts.len() >= 1,
    ensures
        join(parts.push(piece), sep) == join(parts, sep) + seq![sep] + piece,
    decreases parts.len(),
{
    let all = parts.push(piece);
    assert(all.drop_first() =~= parts.drop_first().push(piece));
    assert(all[0] == parts[0]);
    if parts.len() == 1 {
        assert(all.drop_first() =~= seq![piece]);
        assert(join(all.drop_first(), sep) == piece);
        assert(join(all, sep) =~= join(parts, sep) + seq![sep] + piece);
    } else {
        lemma_join_push(parts.drop_first(), piece, sep);
        assert(join(all, sep) =~= join(parts, sep) + seq![sep] + piece);
    }
}

/// A decimal text holds digits only, so none of the other characters.
pub proof fn lemma_digits_free_of(s: Seq<char>, sep: char)
    requires
        all_digits(s),
        !is_digit(sep),
    ensures
        free_of(s, sep),
{
    assert forall|i: int| 0 <= i < s.len() implies #[trigger] s[i] != sep by {
        assert(is_digit(s[i]));
    }
}

/// Whether the characters from `start` up to `end` are one digit or more and
/// digits only.
pub fn is_number(s: &[char], start: usize, end: usize) -> (r: bool)
    requires
        start <= end <= s@.len(),
    ensures
        r == (end > start && all_digits(s@.subrange(start as int, end as int))),
{
    let ghost f = s@.subrange(start as int, end as int);
    if start == end {
        return false;
    }
    let mut i: usize = start;
    while i < end
        invariant
            start <= i <= end <= s@.len(),
            f == s@.subrange(start as int, end as int),
            forall|j: int| 0 <= j < i - start ==> is_digit(#[trigger] f[j]),
        decreases end - i,
    {
        let c: char = s[i];
        assert(f[i - start] == c);
        if !(c >= '0' && c <= '9') {
            return false;
        }
        i += 1;
    }
    true
}

pub proof fn lemma_decimal_text(n: nat)
    ensures
        decimal_text(n).len() >= 1,
        all_digits(decimal_text(n)),
        decimal_value(decimal_text(n)) == n,
        n < 10 ==> decimal_text(n).len() == 1,
        n >= 10 ==> decimal_text(n).len() >= 2,
        n > 0 ==> decimal_text(n)[0] != '0',
    decreases n,
{
    if n < 10 {
        let t = decimal_text(n);
        assert(t.drop_last() =~= Seq::<char>::empty());
        assert(decimal_value(t.drop_last()) == 0);
        assert(t.last() == digit_char(n));
    } else {
        lemma_decimal_text(n / 10);
        let t = decimal_text(n);
        let p = decimal_text(n / 10);
        assert(t.drop_last() =~= p);
        assert(t.last() == digit_char(n % 10));
        assert(t[0] == p[0]);
    }
}

/// How long the shortest decimal text of a number can be: nine digits below
/// a thousand millions, ten for a number of 32 bits, twenty for one of 64
/// bits.
pub proof fn lemma_decimal_text_len(n: nat)
    ensures
        n < 1_000_000_000 ==> decimal_text(n).len() <= 9,
        n <= 0xffff_ffff ==> decimal_text(n).len() <= 10,
        n <= 0xffff_ffff_ffff_ffff ==> decimal_text(n).len() <= 20,
{
    reveal_with_fuel(pow10, 21);
    lemma_decimal_len_bound(n, 9, 1_000_000_000);
    lemma_decimal_len_bound(n, 10, 10_000_000_000);
    lemma_decimal_len_bound(n, 20, 100_000_000_000_000_000_000);
}

pub open spec fn pow10(k: nat) -> nat
    decreases k,
{
    if k == 0 {
        1
    } else {
        10 * pow10((k - 1) as nat)
    }
}

proof fn lemma_decimal_len_bound(n: nat, k: nat, bound: nat)
    requires
        k >= 1,
        bound == pow10(k),
    ensures
        n < bound ==> decimal_text(n).len() <= k,
    decreases n,
{
    if n >= 10 && n < bound {
        if k == 1 {
            assert(pow10(1) == 10 * pow10(0));
        } else {
            lemma_decimal_len_bound(n / 10, (k - 1) as nat, pow10((k - 1) as nat));
        }
    }
}

pub proof fn lemma_decimal_value_zeros(k: nat, t: Seq<char>)
    ensures
        decimal_value(zeros(k) + t) == decimal_value(t),
        all_digits(t) ==> all_digits(zeros(k) + t),
    decreases t.len(),
{
    let s = zeros(k) + t;
    if t.len() == 0 {
        assert(s =~= zeros(k));
        lemma_decimal_value_only_zeros(k);
    } else {
        assert(s.drop_last() =~= zeros(k) + t.drop_last());
        assert(s.last() == t.last());
        lemma_decimal_value_zeros(k, t.drop_last());
    }
    if all_digits(t) {
        assert forall|i: int| 0 <= i < s.len() implies is_digit(#[trigger] s[i]) by {
            if i >= k {
                assert(s[i] == t[i - k]);
            }
        }
    }
}

proof fn lemma_decimal_value_only_zeros(k: nat)
    ensures
        decimal_value(zeros(k)) == 0,
    decreases k,
{
    if k > 0 {
        assert(zeros(k).drop_last() =~= zeros((k - 1) as nat));
        lemma_decimal_value_only_zeros((k - 1) as nat);
    }
}

pub proof fn lemma_padded_decimal_text(n: nat, width: nat)
    ensures
        all_digits(padded_decimal_text(n, width)),
        decimal_value(padded_decimal_text(n, width)) == n,
        padded_decimal_text(n, width).len() >= 1,
        padded_decimal_text(n, width).len() >= width,
{
    lemma_decimal_text(n);
    let t = decimal_text(n);
    if t.len() < width {
        lemma_decimal_value_zeros((width - t.len()) as nat, t);
    }
}

/// Taking one more digit multiplies the value by ten and adds the digit.
pub proof fn lemma_decimal_value_step(s: Seq<char>, i: int)
    requires
        0 <= i < s.len(),
    ensures
        decimal_value(s.take(i + 1)) == decimal_value(s.take(i)) * 10 + digit_value(s[i]),
{
    assert(s.take(i + 1).drop_last() =~= s.take(i));
}

pub proof fn lemma_hex_value_step(s: Seq<char>, i: int)
    requires
        0 <= i < s.len(),
    ensures
        hex_value(s.take(i + 1)) == hex_value(s.take(i)) * 16 + hex_digit_value(s[i]),
{
    assert(s.take(i + 1).drop_last() =~= s.take(i));
}

/// The value of a prefix never exceeds the value of the whole.
pub proof fn lemma_decimal_value_prefix(s: Seq<char>, i: int)
    requires
        0 <= i <= s.len(),
    ensures
        decimal_value(s.take(i)) <= decimal_value(s),
    decreases s.len() - i,
{
    if i < s.len() {
        lemma_decimal_value_step(s, i);
        lemma_decimal_value_prefix(s, i + 1);
    } else {
        assert(s.take(i) =~= s);
    }
}

pub proof fn lemma_hex_value_prefix(s: Seq<char>, i: int)
    requires
        0 <= i <= s.len(),
    ensures
        hex_value(s.take(i)) <= hex_value(s),
    decreases s.len() - i,
{
    if i < s.len() {
        lemma_hex_value_step(s, i);
        lemma_hex_value_prefix(s, i + 1);
    } else {
        assert(s.take(i) =~= s);
    }
}

/// The characters of a string, one by one.
pub fn chars_of(s: &str) -> (v: Vec<char>)
    ensures
        v@ == s@,
{
    let mut v: Vec<char> = Vec::new();
    for c in it: s.chars()
        invariant
            it.seq() == s@,
            v@ == it.seq().take(it.index() as int),
    {
        v.push(c);
    }
    assert(v@ == s@);
    v
}

/// A string of the given characters.
pub fn string_of(v: &[char]) -> (s: String)
    ensures
        s@ == v@,
{
    let mut s = String::new();
    let mut i: usize = 0;
    while i < v.len()
        invariant
            i <= v.len(),
            s@ == v@.take(i as int),
        decreases v.len() - i,
    {
        s.push(v[i]);
        assert(v@.take(i + 1) =~= v@.take(i as int).push(v@[i as int]));
        i += 1;
    }
    assert(v@.take(v.len() as int) =~= v@);
    s
}

/// The characters from `start` up to `end`.
pub fn slice_range(s: &[char], start: usize, end: usize) -> (r: &[char])
    requires
        start <= end <= s@.len(),
    ensures
        r@ == s@.subrange(start as int, end as int),
{
    vstd::slice::slice_subrange(s, start, end)
}

/// Appends every character of `tail` to `out`.
pub fn push_all(out: &mut Vec<char>, tail: &[char])
    ensures
        final(out)@ == old(out)@ + tail@,
{
    let mut i: usize = 0;
    while i < tail.len()
        invariant
            i <= tail.len(),
            out@ == old(out)@ + tail@.take(i as int),
        decreases tail.len() - i,
    {
        out.push(tail[i]);
        assert(tail@.take(i + 1) =~= tail@.take(i as int).push(tail@[i as int]));
        i += 1;
    }
    assert(tail@.take(tail.len() as int) =~= tail@);
}

/// Appends the shortest decimal text of `n`.
pub fn push_decimal(out: &mut Vec<char>, n: u64)
    ensures
        final(out)@ == old(out)@ + decimal_text(n as nat),
    decreases n,
{
    if n >= 10 {
        push_decimal(out, n / 10);
    }
    let d: u8 = (n % 10) as u8;
    out.push((48u8 + d) as char);
    assert(out@ =~= old(out)@ + decimal_text(n as nat));
}

/// Number of characters of the shortest decimal text of `n`.
pub fn decimal_len(n: u64) -> (r: usize)
    ensures
        r == decimal_text(n as nat).len(),
        1 <= r <= 20,
    decreases n,
{
    proof {
        lemma_decimal_text_len(n as nat);
        lemma_decimal_text(n as nat);
    }
    if n >= 10 {
        1 + decimal_len(n / 10)
    } else {
        1
    }
}

/// Appends the decimal text of `n`, filled with zeros on the left up to
/// `width` characters.
pub fn push_padded_decimal(out: &mut Vec<char>, n: u64, width: usize)
    ensures
        final(out)@ == old(out)@ + padded_decimal_text(n as nat, width as nat),
{
    let len: usize = decimal_len(n);
    let mut k: usize = 0;
    if len < width {
        let fill: usize = width - len;
        while k < fill
            invariant
                k <= fill,
                out@ == old(out)@ + zeros(k as nat),
            decreases fill - k,
        {
            out.push('0');
            assert(zeros((k + 1) as nat) =~= zeros(k as nat).push('0'));
            k += 1;
        }
    } else {
        assert(zeros(0) =~= Seq::<char>::empty());
        assert(out@ =~= old(out)@ + zeros(0));
    }
    let ghost mid = out@;
    push_decimal(out, n);
    assert(out@ =~= old(out)@ + padded_decimal_text(n as nat, width as nat)) by {
        if len < width {
            assert(mid + decimal_text(n as nat) =~= old(out)@ + (zeros((width - len) as nat)
                + decimal_text(n as nat)));
        } else {
            assert(mid =~= old(out)@);
        }
    }
}

/// What `parse_decimal` reads from a text: its value, if the text is one
/// digit or more, digits only, and denotes at most `max`.
pub open spec fn decimal_field(s: Seq<char>, max: nat) -> Option<nat> {
    if s.len() > 0 && all_digits(s) && decimal_value(s) <= max {
        Some(decimal_value(s))
    } else {
        None
    }
}

/// Reads the characters from `start` up to `end` as a decimal number of at
/// most `max`.
pub fn parse_decimal(s: &[char], start: usize, end: usize, max: u64) -> (r: Option<u64>)
    requires
        start <= end <= s@.len(),
    ensures
        match r {
            Some(v) => decimal_field(s@.subrange(start as int, end as int), max as nat) == Some(
                v as nat,
            ),
            None => decimal_field(s@.subrange(start as int, end as int), max as nat) is None,
        },
{
    let ghost f = s@.subrange(start as int, end as int);
    if start == end {
        return None;
    }
    let mut acc: u64 = 0;
    let mut i: usize = start;
    while i < end
        invariant
            start <= i <= end <= s@.len(),
            f == s@.subrange(start as int, end as int),
            all_digits(f.take(i - start)),
            acc == decimal_value(f.take(i - start)),
            acc <= max,
        decreases end - i,
    {
        let c: char = s[i];
        assert(f[i - start] == c);
        if !(c >= '0' && c <= '9') {
            assert(!all_digits(f)) by {
                assert(!is_digit(f[i - start]));
            }
            return None;
        }
        let d: u64 = (c as u8 - 48u8) as u64;
        proof {
            lemma_decimal_value_step(f, i - start);
            lemma_decimal_value_prefix(f, i - start + 1);
            assert forall|j: int| 0 <= j < i - start + 1 implies is_digit(
                #[trigger] f.take(i - start + 1)[j],
            ) by {
                if j < i - start {
                    assert(f.take(i - start)[j] == f[j]);
                }
            }
        }
        if max < d || acc > (max - d) / 10 {
            assert(decimal_value(f) > max);
            return None;
        }
        acc = acc * 10 + d;
        i += 1;
    }
    assert(f.take(end - start) =~= f);
    Some(acc)
}

/// What `parse_hex` reads from a text: its value, if the text is one
/// hexadecimal digit or more, such digits only, and denotes at most `max`.
pub open spec fn hex_field(s: Seq<char>, max: nat) -> Option<nat> {
    if s.len() > 0 && all_hex_digits(s) && hex_value(s) <= max {
        Some(hex_value(s))
    } else {
        None
    }
}

/// Reads the characters from `start` up to `end` as a hexadecimal number of
/// at most `max`.
pub fn parse_hex(s: &[char], start: usize, end: usize, max: u64) -> (r: Option<u64>)
    requires
        start <= end <= s@.len(),
    ensures
        match r {
            Some(v) => hex_field(s@.subrange(start as int, end as int), max as nat) == Some(
                v as nat,
            ),
            None => hex_field(s@.subrange(start as int, end as int), max as nat) is None,
        },
{
    let ghost f = s@.subrange(start as int, end as int);
    if start == end {
        return None;
    }
    let mut acc: u64 = 0;
    let mut i: usize = start;
    while i < end
        invariant
            start <= i <= end <= s@.len(),
            f == s@.subrange(start as int, end as int),
            all_hex_digits(f.take(i - start)),
            acc == hex_value(f.take(i - start)),
            acc <= max,
        decreases end - i,
    {
        let c: char = s[i];
        assert(f[i - start] == c);
        let d: u64 = if c >= '0' && c <= '9' {
            (c as u8 - 48u8) as u64
        } else if c >= 'a' && c <= 'f' {
            (c as u8 - 97u8) as u64 + 10
        } else if c >= 'A' && c <= 'F' {
            (c as u8 - 65u8) as u64 + 10
        } else {
            assert(!all_hex_digits(f)) by {
                assert(!is_hex_digit(f[i - start]));
            }
            return None;
        };
        proof {
            lemma_hex_value_step(f, i - start);
            lemma_hex_value_prefix(f, i - start + 1);
            assert forall|j: int| 0 <= j < i - start + 1 implies is_hex_digit(
                #[trigger] f.take(i - start + 1)[j],
            ) by {
                if j < i - start {
                    assert(f.take(i - start)[j] == f[j]);
                }
            }
        }
        if max < d || acc > (max - d) / 16 {
            assert(hex_value(f) > max);
            return None;
        }
        acc = acc * 16 + d;
        i += 1;
    }
    assert(f.take(end - start) =~= f);
    Some(acc)
}

/// Position of the first `c` at or after `start` and before `end`, or `end`
/// where there is none.
pub fn find_char(s: &[char], start: usize, end: usize, c: char) -> (r: usize)
    requires
        start <= end <= s@.len(),
    ensures
        r == start + find(s@.subrange(start as int, end as int), c),
        start <= r <= end,
{
    let ghost f = s@.subrange(start as int, end as int);
    let mut i: usize = start;
    while i < end && s[i] != c
        invariant
            start <= i <= end <= s@.len(),
            f == s@.subrange(start as int, end as int),
            forall|j: int| 0 <= j < i - start ==> #[trigger] f[j] != c,
        decreases end - i,
    {
        assert(f[i - start] == s@[i as int]);
        i += 1;
    }
    proof {
        if i < end {
            assert(f[i - start] == s@[i as int]);
        }
        lemma_find_is(f, c, i - start);
    }
    i
}

/// Says that each range in `r` marks, within `s`, the piece of `parts` with
/// the same index.
pub open spec fn ranges_mark(
    s: Seq<char>,
    r: Seq<(usize, usize)>,
    parts: Seq<Seq<char>>,
) -> bool {
    &&& r.len() == parts.len()
    &&& forall|i: int|
        0 <= i < r.len() ==> {
            &&& (#[trigger] r[i]).0 <= r[i].1 <= s.len()
            &&& s.subrange(r[i].0 as int, r[i].1 as int) == parts[i]
        }
}

/// Where piece `i` begins in the text that the pieces were split from: after
/// the pieces before it and a separator for each of them.
pub open spec fn piece_start(p: Seq<Seq<char>>, i: int) -> int
    decreases i,
{
    if i <= 0 {
        0
    } else {
        piece_start(p, i - 1) + p[i - 1].len() + 1
    }
}

/// Says that the ranges lie one after the other from `start` to `end`, with
/// one character between each two of them.
pub open spec fn ranges_follow(r: Seq<(usize, usize)>, start: int, end: int) -> bool {
    &&& r.len() >= 1
    &&& r[0].0 == start
    &&& r.last().1 == end
    &&& forall|i: int| 0 <= i < r.len() - 1 ==> (#[trigger] r[i + 1]).0 == r[i].1 + 1
}

/// Ranges that mark pieces and lie one after the other begin where the
/// pieces begin.
pub proof fn lemma_range_start(
    s: Seq<char>,
    r: Seq<(usize, usize)>,
    p: Seq<Seq<char>>,
    start: int,
    end: int,
    i: int,
)
    requires
        ranges_mark(s, r, p),
        ranges_follow(r, start, end),
        0 <= i < r.len(),
    ensures
        r[i].0 == start + piece_start(p, i),
        r[i].1 == start + piece_start(p, i) + p[i].len(),
    decreases i,
{
    assert(s.subrange(r[i].0 as int, r[i].1 as int) == p[i]);
    if i > 0 {
        lemma_range_start(s, r, p, start, end, i - 1);
        assert(r[i - 1 + 1].0 == r[i - 1].1 + 1);
    }
}

/// Splits the characters from `start` up to `end` at each `sep`, and gives the
/// pieces as ranges of `s`.
pub fn split_ranges(s: &[char], start: usize, end: usize, sep: char) -> (r: Vec<(usize, usize)>)
    requires
        start <= end <= s@.len(),
    ensures
        ranges_mark(s@, r@, split(s@.subrange(start as int, end as int), sep)),
        ranges_follow(r@, start as int, end as int),
        r@.len() >= 1,
        forall|i: int| 0 <= i < r@.len() ==> start <= (#[trigger] r@[i]).0 && r@[i].1 <= end,
{
    let ghost whole = split(s@.subrange(start as int, end as int), sep);
    let mut out: Vec<(usize, usize)> = Vec::new();
    let mut pos: usize = start;
    let ghost mut done: Seq<Seq<char>> = Seq::empty();
    loop
        invariant_except_break
            ranges_mark(s@, out@, done),
            whole == done + split(s@.subrange(pos as int, end as int), sep),
            out@.len() == 0 ==> pos == start,
            out@.len() > 0 ==> out@[0].0 == start && pos == out@.last().1 + 1,
        invariant
            start <= pos <= end <= s@.len(),
            forall|i: int| 0 <= i < out@.len() ==> start <= (#[trigger] out@[i]).0 && out@[i].1 <= end,
            forall|i: int| 0 <= i < out@.len() - 1 ==> (#[trigger] out@[i + 1]).0 == out@[i].1 + 1,
        ensures
            ranges_mark(s@, out@, whole),
            ranges_follow(out@, start as int, end as int),
            out@.len() >= 1,
            forall|i: int| 0 <= i < out@.len() ==> start <= (#[trigger] out@[i]).0 && out@[i].1 <= end,
        decreases end - pos,
    {
        let k: usize = find_char(s, pos, end, sep);
        let ghost rest = s@.subrange(pos as int, end as int);
        let ghost piece = s@.subrange(pos as int, k as int);
        let ghost before = out@;
        out.push((pos, k));
        proof {
            assert(rest.take(k - pos) =~= piece);
            assert forall|i: int| 0 <= i < out@.len() implies {
                &&& (#[trigger] out@[i]).0 <= out@[i].1 <= s@.len()
                &&& s@.subrange(out@[i].0 as int, out@[i].1 as int) == done.push(piece)[i]
            } by {
                if i < before.len() {
                    assert(out@[i] == before[i]);
                }
            }
            assert forall|i: int| 0 <= i < out@.len() - 1 implies (#[trigger] out@[i + 1]).0
                == out@[i].1 + 1 by {
                if i + 1 < before.len() {
                    assert(out@[i + 1] == before[i + 1]);
                    assert(out@[i] == before[i]);
                    assert(before[i + 1].0 == before[i].1 + 1);
                } else {
                    assert(out@[i] == before[i]);
                    assert(before.last() == before[i]);
                }
            }
            if before.len() > 0 {
                assert(out@[0] == before[0]);
            }
        }
        if k >= end {
            proof {
                assert(rest =~= piece);
                assert(split(rest, sep) == seq![rest]);
                assert(whole =~= done.push(piece));
            }
            break ;
        }
        proof {
            assert(rest.skip(k - pos + 1) =~= s@.subrange(k + 1, end as int));
            assert(split(rest, sep) == seq![piece] + split(
                s@.subrange(k + 1, end as int),
                sep,
            ));
            assert(done + (seq![piece] + split(s@.subrange(k + 1, end as int), sep))
                =~= done.push(piece) + split(s@.subrange(k + 1, end as int), sep));
            done = done.push(piece);
        }
        pos = k + 1;
    }
    out
}

/// Whether the characters of `s` from `start` on begin with `word`.
pub fn starts_with_at(s: &[char], start: usize, end: usize, word: &[char]) -> (r: bool)
    requires
        start <= end <= s@.len(),
    ensures
        r == (word@.len() <= end - start && s@.subrange(start as int, start + word@.len())
            == word@),
{
    if word.len() > end - start {
        return false;
    }
    let mut i: usize = 0;
    while i < word.len()
        invariant
            i <= word@.len() <= end - start,
            end <= s@.len(),
            forall|j: int| 0 <= j < i ==> s@[start + j] == #[trigger] word@[j],
        decreases word.len() - i,
    {
        if s[start + i] != word[i] {
            assert(s@.subrange(start as int, start + word@.len())[i as int] != word@[i as int]);
            return false;
        }
        i += 1;
    }
    assert(s@.subrange(start as int, start + word@.len()) =~= word@);
    true
}


/// The two characters `a`, `b` where `present` holds, and nothing otherwise.
pub open spec fn code_if(present: bool, a: char, b: char) -> Seq<char> {
    if present {
        seq![a, b]
    } else {
        Seq::empty()
    }
}

/// Appends the two-letter code `a`, `b` where `present` holds.
pub fn push_code_if(out: &mut Vec<char>, present: bool, a: char, b: char)
    ensures
        final(out)@ == old(out)@ + code_if(present, a, b),
{
    if present {
        out.push(a);
        out.push(b);
    }
    assert(out@ =~= old(out)@ + code_if(present, a, b));
}

/// Appends the two-letter code `a`, `b` where `present` holds, to an output
/// that so far holds `base` followed by `acc`.
pub(crate) fn push_code_after(
    out: &mut Vec<char>,
    Ghost(base): Ghost<Seq<char>>,
    Ghost(acc): Ghost<Seq<char>>,
    present: bool,
    a: char,
    b: char,
)
    requires
        old(out)@ == base + acc,
    ensures
        final(out)@ == base + (acc + code_if(present, a, b)),
{
    if present {
        out.push(a);
        out.push(b);
    }
    assert(out@ =~= base + (acc + code_if(present, a, b)));
}

} // verus!
