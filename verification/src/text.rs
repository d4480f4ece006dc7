//! Text building blocks: decimal numerals and separator-joined lists,
//! stated over sequences of characters.

use vstd::prelude::*;

verus! {

/// The character that writes the digit `d`, for `0 <= d <= 9`.
pub open spec fn digit_char(d: int) -> char {
    if d == 0 {
        '0'
    } else if d == 1 {
        '1'
    } else if d == 2 {
        '2'
    } else if d == 3 {
        '3'
    } else if d == 4 {
        '4'
    } else if d == 5 {
        '5'
    } else if d == 6 {
        '6'
    } else if d == 7 {
        '7'
    } else if d == 8 {
        '8'
    } else {
        '9'
    }
}

/// The decimal numeral of a natural number, without leading zeros.
pub open spec fn decimal_digits(n: nat) -> Seq<char>
    decreases n,
{
    if n < 10 {
        seq![digit_char(n as int)]
    } else {
        decimal_digits(n / 10).push(digit_char((n % 10) as int))
    }
}

/// The decimal numeral of an integer, with a leading minus sign below zero.
pub open spec fn decimal(n: int) -> Seq<char> {
    if n < 0 {
        seq!['-'] + decimal_digits((-n) as nat)
    } else {
        decimal_digits(n as nat)
    }
}

/// The parts of `parts`, in order, with `sep` between each two neighbours.
pub open spec fn joined(parts: Seq<Seq<char>>, sep: Seq<char>) -> Seq<char>
    decreases parts.len(),
{
    if parts.len() == 0 {
        Seq::empty()
    } else if parts.len() == 1 {
        parts[0]
    } else {
        joined(parts.drop_last(), sep) + sep + parts.last()
    }
}

fn digit_text(d: u64) -> (r: &'static str)
    requires
        d < 10,
    ensures
        r@ == seq![digit_char(d as int)],
{
    proof {
        reveal_strlit("0");
        reveal_strlit("1");
        reveal_strlit("2");
        reveal_strlit("3");
        reveal_strlit("4");
        reveal_strlit("5");
        reveal_strlit("6");
        reveal_strlit("7");
        reveal_strlit("8");
        reveal_strlit("9");
    }
    let r = if d == 0 {
        "0"
    } else if d == 1 {
        "1"
    } else if d == 2 {
        "2"
    } else if d == 3 {
        "3"
    } else if d == 4 {
        "4"
    } else if d == 5 {
        "5"
    } else if d == 6 {
        "6"
    } else if d == 7 {
        "7"
    } else if d == 8 {
        "8"
    } else {
        "9"
    };
    assert(r@ =~= seq![digit_char(d as int)]);
    r
}

/// Appends the decimal numeral of `n` to `out`.
pub fn push_natural(out: &mut String, n: u64)
    ensures
        final(out)@ == old(out)@ + decimal_digits(n as nat),
    decreases n,
{
    if n >= 10 {
        push_natural(out, n / 10);
    }
    out.append(digit_text(n % 10));
    assert(out@ =~= old(out)@ + decimal_digits(n as nat));
}

/// Appends the decimal numeral of `n` to `out`, with its sign.
pub fn push_integer(out: &mut String, n: i64)
    ensures
        final(out)@ == old(out)@ + decimal(n as int),
{
    if n < 0 {
        proof {
            reveal_strlit("-");
        }
        out.append("-");
        let magnitude: u64 = if n == i64::MIN {
            0x8000_0000_0000_0000u64
        } else {
            (-n) as u64
        };
        push_natural(out, magnitude);
        assert(out@ =~= old(out)@ + decimal(n as int));
    } else {
        push_natural(out, n as u64);
    }
}

/// Whether two optional strings hold the same text, or are both absent.
pub fn same_optional_text(a: &Option<String>, b: &Option<String>) -> (r: bool)
    ensures
        r == (a.deep_view() == b.deep_view()),
{
    match a {
        Some(x) => match b {
            Some(y) => *x == *y,
            None => false,
        },
        None => b.is_none(),
    }
}

/// A copy of an optional string.
pub fn copy_optional_text(a: &Option<String>) -> (r: Option<String>)
    ensures
        r.deep_view() == a.deep_view(),
{
    match a {
        Some(x) => Some(x.clone()),
        None => None,
    }
}

/// The decimal numeral of `n` as a string of its own.
pub fn integer_text(n: i64) -> (r: String)
    ensures
        r@ == decimal(n as int),
{
    let mut out = String::new();
    push_integer(&mut out, n);
    assert(out@ =~= decimal(n as int));
    out
}


/// The characters of a string, one by one.
pub fn chars_of(text: &str) -> (chars: Vec<char>)
    ensures
        chars@ == text@,
{
    let mut chars: Vec<char> = Vec::new();
    for c in it: text.chars()
        invariant
            chars@ == it.seq().take(it.index() as int),
            it.seq() == text@,
    {
        chars.push(c);
        assert(it.seq().take(it.index() + 1) =~= it.seq().take(it.index() as int).push(c));
    }
    assert(chars@ =~= text@);
    chars
}

/// Whether `text` begins with `prefix`.
pub open spec fn starts_with(text: Seq<char>, prefix: Seq<char>) -> bool {
    prefix.len() <= text.len() && text.take(prefix.len() as int) == prefix
}

/// `text` without `prefix` at its beginning, as often as it stands there.
pub open spec fn without_leading(text: Seq<char>, prefix: Seq<char>) -> Seq<char>
    decreases text.len(),
{
    if prefix.len() > 0 && starts_with(text, prefix) {
        without_leading(text.skip(prefix.len() as int), prefix)
    } else {
        text
    }
}

/// The index of the first `sep` in `text`, or the length of `text` where
/// there is none.
pub open spec fn first_at(text: Seq<char>, sep: char) -> int
    decreases text.len(),
{
    if text.len() == 0 || text[0] == sep {
        0
    } else {
        1 + first_at(text.drop_first(), sep)
    }
}

/// The fields of `text` between the separators `sep`. A text without a
/// separator is one field; an empty text is one empty field.
pub open spec fn split(text: Seq<char>, sep: char) -> Seq<Seq<char>>
    decreases text.len(),
{
    let at = first_at(text, sep);
    if 0 <= at < text.len() {
        seq![text.take(at)] + split(text.skip(at + 1), sep)
    } else {
        seq![text]
    }
}

/// `first_at` is the first index that holds the separator.
pub proof fn lemma_first_at(text: Seq<char>, sep: char, n: int)
    requires
        0 <= n <= text.len(),
        forall|j: int| 0 <= j < n ==> text[j] != sep,
        n == text.len() || text[n] == sep,
    ensures
        first_at(text, sep) == n,
    decreases text.len(),
{
    if n > 0 {
        let rest = text.drop_first();
        assert forall|j: int| 0 <= j < n - 1 implies rest[j] != sep by {
            assert(rest[j] == text[j + 1]);
        }
        lemma_first_at(rest, sep, n - 1);
    }
}

/// Whether the characters of `chars` from `at` on begin with `prefix`.
pub fn begins_at(chars: &Vec<char>, at: usize, prefix: &Vec<char>) -> (r: bool)
    requires
        at <= chars.len(),
    ensures
        r == starts_with(chars@.skip(at as int), prefix@),
{
    if prefix.len() > chars.len() - at {
        return false;
    }
    let ghost tail = chars@.skip(at as int);
    let mut i: usize = 0;
    while i < prefix.len()
        invariant
            i <= prefix.len(),
            at <= chars.len(),
            prefix.len() <= chars.len() - at,
            tail == chars@.skip(at as int),
            forall|j: int| 0 <= j < i ==> tail[j] == prefix@[j],
        decreases prefix.len() - i,
    {
        assert(tail[i as int] == chars@[at + i]);
        if chars[at + i] != prefix[i] {
            assert(tail.take(prefix.len() as int)[i as int] != prefix@[i as int]);
            return false;
        }
        i += 1;
    }
    assert(tail.take(prefix.len() as int) =~= prefix@);
    true
}

/// The index from which `chars` goes on after `prefix`, as often as it
/// stands at the beginning.
pub fn skip_leading(chars: &Vec<char>, prefix: &Vec<char>) -> (from: usize)
    ensures
        from <= chars.len(),
        chars@.skip(from as int) == without_leading(chars@, prefix@),
{
    let mut from: usize = 0;
    assert(chars@.skip(0) =~= chars@);
    if prefix.len() == 0 {
        return 0;
    }
    while begins_at(chars, from, prefix)
        invariant
            from <= chars.len(),
            prefix.len() > 0,
            without_leading(chars@, prefix@) == without_leading(chars@.skip(from as int), prefix@),
        decreases chars.len() - from,
    {
        assert(chars@.skip(from as int).skip(prefix.len() as int) =~= chars@.skip(
            from + prefix.len(),
        ));
        from += prefix.len();
    }
    from
}

/// The bounds of the fields of `chars` from `from` on, between the
/// separators `sep`: for each field the index of its first character and the
/// index behind its last.
pub fn field_bounds(chars: &Vec<char>, from: usize, sep: char) -> (bounds: Vec<(usize, usize)>)
    requires
        from <= chars.len(),
    ensures
        bounds@.len() == split(chars@.skip(from as int), sep).len(),
        forall|k: int|
            0 <= k < bounds@.len() ==> {
                &&& from <= (#[trigger] bounds@[k]).0 <= bounds@[k].1 <= chars.len()
                &&& split(chars@.skip(from as int), sep)[k] == chars@.subrange(
                    bounds@[k].0 as int,
                    bounds@[k].1 as int,
                )
            },
{
    let ghost whole = split(chars@.skip(from as int), sep);
    let ghost mut done: Seq<Seq<char>> = Seq::empty();
    let mut bounds: Vec<(usize, usize)> = Vec::new();
    let mut start: usize = from;
    let mut i: usize = from;
    assert(whole =~= done + split(chars@.skip(start as int), sep));
    while i < chars.len()
        invariant
            from <= start <= i <= chars.len(),
            whole == done + split(chars@.skip(start as int), sep),
            done.len() == bounds@.len(),
            forall|j: int| start <= j < i ==> chars@[j] != sep,
            forall|k: int|
                0 <= k < bounds@.len() ==> {
                    &&& from <= (#[trigger] bounds@[k]).0 <= bounds@[k].1 <= chars.len()
                    &&& done[k] == chars@.subrange(bounds@[k].0 as int, bounds@[k].1 as int)
                },
        decreases chars.len() - i,
    {
        if chars[i] == sep {
            proof {
                let tail = chars@.skip(start as int);
                assert forall|j: int| 0 <= j < i - start implies tail[j] != sep by {
                    assert(tail[j] == chars@[start + j]);
                }
                lemma_first_at(tail, sep, i - start);
                assert(tail.take(i - start) =~= chars@.subrange(start as int, i as int));
                assert(tail.skip(i - start + 1) =~= chars@.skip(i + 1));
                let field = chars@.subrange(start as int, i as int);
                assert(whole =~= done.push(field) + split(chars@.skip(i + 1), sep));
                done = done.push(field);
            }
            bounds.push((start, i));
            start = i + 1;
        }
        i += 1;
    }
    proof {
        let tail = chars@.skip(start as int);
        assert forall|j: int| 0 <= j < tail.len() implies tail[j] != sep by {
            assert(tail[j] == chars@[start + j]);
        }
        lemma_first_at(tail, sep, tail.len() as int);
        assert(tail =~= chars@.subrange(start as int, chars.len() as int));
        assert(whole =~= done.push(tail));
        done = done.push(tail);
    }
    bounds.push((start, chars.len()));
    bounds
}

/// Whether the characters of `chars` from `from` up to `to` are `word`.
pub fn range_is(chars: &Vec<char>, from: usize, to: usize, word: &Vec<char>) -> (r: bool)
    requires
        from <= to <= chars.len(),
    ensures
        r == (chars@.subrange(from as int, to as int) == word@),
{
    if to - from != word.len() {
        return false;
    }
    let ghost range = chars@.subrange(from as int, to as int);
    let mut i: usize = 0;
    while i < word.len()
        invariant
            i <= word.len(),
            from <= to <= chars.len(),
            to - from == word.len(),
            range == chars@.subrange(from as int, to as int),
            forall|j: int| 0 <= j < i ==> range[j] == word@[j],
        decreases word.len() - i,
    {
        assert(range[i as int] == chars@[from + i]);
        if chars[from + i] != word[i] {
            return false;
        }
        i += 1;
    }
    assert(range =~= word@);
    true
}

/// The value of a decimal digit.
pub open spec fn digit_value(c: char) -> Option<int> {
    if '0' as u32 <= c as u32 <= '9' as u32 {
        Some(c as u32 - '0' as u32)
    } else {
        None
    }
}

/// The number that a run of decimal digits writes; nothing where a
/// character is no digit. The empty run writes zero.
pub open spec fn digits_value(digits: Seq<char>) -> Option<int>
    decreases digits.len(),
{
    if digits.len() == 0 {
        Some(0)
    } else {
        match (digits_value(digits.drop_last()), digit_value(digits.last())) {
            (Some(value), Some(digit)) => Some(10 * value + digit),
            _ => None,
        }
    }
}

/// The unsigned 64-bit number that `text` writes in decimal: digits only,
/// at least one, with an optional plus sign before them, and a value that
/// fits.
pub open spec fn parsed_u64(text: Seq<char>) -> Option<u64> {
    let digits = if text.len() > 0 && text[0] == '+' {
        text.drop_first()
    } else {
        text
    };
    if digits.len() == 0 {
        None
    } else {
        match digits_value(digits) {
            Some(value) => if value <= u64::MAX {
                Some(value as u64)
            } else {
                None
            },
            None => None,
        }
    }
}

/// Reads the characters of `chars` from `from` up to `to` as an unsigned
/// 64-bit number.
pub fn parse_u64(chars: &Vec<char>, from: usize, to: usize) -> (r: Option<u64>)
    requires
        from <= to <= chars.len(),
    ensures
        r == parsed_u64(chars@.subrange(from as int, to as int)),
{
    let ghost text = chars@.subrange(from as int, to as int);
    let mut i: usize = from;
    if from < to && chars[from] == '+' {
        i = from + 1;
    }
    let first: usize = i;
    let ghost digits = chars@.subrange(first as int, to as int);
    proof {
        assert(text[0] == chars@[from as int] || from == to);
        if first == from {
            assert(digits =~= text);
        } else {
            assert(digits =~= text.drop_first());
        }
    }
    if first == to {
        return None;
    }
    let mut value: u64 = 0;
    let mut fits: bool = true;
    let ghost mut exact: int = 0;
    let ghost goal = parsed_u64(text);
    assert(digits.take(0) =~= Seq::empty());
    assert(goal == match digits_value(digits) {
        Some(value) => if value <= u64::MAX {
            Some(value as u64)
        } else {
            None
        },
        None => None,
    });
    while i < to
        invariant
            first <= i <= to <= chars.len(),
            digits == chars@.subrange(first as int, to as int),
            goal == parsed_u64(chars@.subrange(from as int, to as int)),
            goal == match digits_value(digits) {
                Some(value) => if value <= u64::MAX {
                    Some(value as u64)
                } else {
                    None
                },
                None => None,
            },
            digits_value(digits.take(i - first)) == Some(exact),
            exact >= 0,
            fits ==> value == exact,
            !fits ==> exact > u64::MAX,
        decreases to - i,
    {
        let c = chars[i];
        proof {
            assert(digits.take(i - first + 1).drop_last() =~= digits.take(i - first));
            assert(digits.take(i - first + 1).last() == c);
        }
        let code = c as u32;
        if code < 48 || code > 57 {
            proof {
                lemma_digits_stay_unread(digits, i - first + 1);
            }
            return None;
        }
        let digit = (code - 48) as u64;
        proof {
            exact = 10 * exact + digit;
        }
        if fits {
            if value > (u64::MAX - digit) / 10 {
                fits = false;
            } else {
                value = value * 10 + digit;
            }
        }
        i += 1;
    }
    assert(digits.take(to - first) =~= digits);
    if fits {
        Some(value)
    } else {
        None
    }
}

/// A run of characters with an unreadable beginning is unreadable.
pub proof fn lemma_digits_stay_unread(digits: Seq<char>, n: int)
    requires
        0 <= n <= digits.len(),
        digits_value(digits.take(n)) is None,
    ensures
        digits_value(digits) is None,
    decreases digits.len() - n,
{
    if n < digits.len() {
        assert(digits.take(n + 1).drop_last() =~= digits.take(n));
        lemma_digits_stay_unread(digits, n + 1);
    } else {
        assert(digits.take(n) =~= digits);
    }
}

/// The difference `a - b`, as far as a 64-bit number holds it.
pub open spec fn clamped_difference(a: int, b: int) -> int {
    if a - b > i64::MAX {
        i64::MAX as int
    } else if a - b < i64::MIN {
        i64::MIN as int
    } else {
        a - b
    }
}

/// The difference of two numbers, kept within 64 bits.
pub fn difference(a: i64, b: i64) -> (r: i64)
    ensures
        r == clamped_difference(a as int, b as int),
{
    if b < 0 && a > i64::MAX + b {
        i64::MAX
    } else if b > 0 && a < i64::MIN + b {
        i64::MIN
    } else {
        a - b
    }
}

} // verus!
