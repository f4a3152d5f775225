//! Text: comparison, search and ASCII case.

use vstd::prelude::*;
use vstd::string::*;

verus! {

/// The ASCII lower case of a character; others are left alone.
pub open spec fn lower(c: char) -> char {
    if 'A' <= c && c <= 'Z' {
        ((c as u32) + 32) as char
    } else {
        c
    }
}

/// The ASCII lower case of a text.
pub open spec fn ascii_lower(s: Seq<char>) -> Seq<char> {
    s.map_values(|c: char| lower(c))
}

fn lower_char(c: char) -> (l: char)
    ensures
        l == lower(c),
{
    match c {
        'A' => 'a',
        'B' => 'b',
        'C' => 'c',
        'D' => 'd',
        'E' => 'e',
        'F' => 'f',
        'G' => 'g',
        'H' => 'h',
        'I' => 'i',
        'J' => 'j',
        'K' => 'k',
        'L' => 'l',
        'M' => 'm',
        'N' => 'n',
        'O' => 'o',
        'P' => 'p',
        'Q' => 'q',
        'R' => 'r',
        'S' => 's',
        'T' => 't',
        'U' => 'u',
        'V' => 'v',
        'W' => 'w',
        'X' => 'x',
        'Y' => 'y',
        'Z' => 'z',
        _ => c,
    }
}

/// The two texts are equal.
pub fn same(a: &str, b: &str) -> (r: bool)
    ensures
        r == (a@ == b@),
{
    let n: usize = a.unicode_len();
    if n != b.unicode_len() {
        return false;
    }
    let mut i: usize = 0;
    while i < n
        invariant
            n == a@.len(),
            n == b@.len(),
            i <= n,
            forall|j: int| 0 <= j < i ==> a@[j] == b@[j],
        decreases n - i,
    {
        if a.get_char(i) != b.get_char(i) {
            return false;
        }
        i = i + 1;
    }
    assert(a@ =~= b@);
    true
}

/// The ASCII lower case of `a` is `b`.
pub fn same_in_lower_case(a: &str, b: &str) -> (r: bool)
    ensures
        r == (ascii_lower(a@) == b@),
{
    let n: usize = a.unicode_len();
    if n != b.unicode_len() {
        return false;
    }
    let mut i: usize = 0;
    while i < n
        invariant
            n == a@.len(),
            n == b@.len(),
            i <= n,
            forall|j: int| 0 <= j < i ==> lower(a@[j]) == b@[j],
        decreases n - i,
    {
        if lower_char(a.get_char(i)) != b.get_char(i) {
            assert(ascii_lower(a@)[i as int] != b@[i as int]);
            return false;
        }
        i = i + 1;
    }
    assert(ascii_lower(a@) =~= b@);
    true
}

/// `part` stands in `s` at position `at`.
pub open spec fn stands_at(s: Seq<char>, part: Seq<char>, at: int) -> bool {
    0 <= at && at + part.len() <= s.len() && s.subrange(at, at + part.len()) == part
}

fn is_at(s: &str, part: &str, at: usize) -> (r: bool)
    ensures
        r == stands_at(s@, part@, at as int),
{
    let n: usize = s.unicode_len();
    let m: usize = part.unicode_len();
    if at > n || n - at < m {
        return false;
    }
    let mut i: usize = 0;
    while i < m
        invariant
            n == s@.len(),
            m == part@.len(),
            at + m <= n,
            i <= m,
            forall|j: int| 0 <= j < i ==> s@[at + j] == part@[j],
        decreases m - i,
    {
        if s.get_char(at + i) != part.get_char(i) {
            assert(s@.subrange(at as int, at + m)[i as int] != part@[i as int]);
            return false;
        }
        i = i + 1;
    }
    assert(s@.subrange(at as int, at + m) =~= part@);
    true
}

/// `part` stands somewhere in `s`.
pub open spec fn has_part(s: Seq<char>, part: Seq<char>) -> bool {
    exists|at: int| stands_at(s, part, at)
}

/// `part` stands somewhere in `s`.
pub fn contains(s: &str, part: &str) -> (r: bool)
    ensures
        r == has_part(s@, part@),
{
    let n: usize = s.unicode_len();
    let mut at: usize = 0;
    while at < n
        invariant
            n == s@.len(),
            at <= n,
            forall|k: int| 0 <= k < at ==> !stands_at(s@, part@, k),
        decreases n - at,
    {
        if is_at(s, part, at) {
            return true;
        }
        at = at + 1;
    }
    is_at(s, part, n)
}

/// `s` begins with `part`.
pub fn starts_with(s: &str, part: &str) -> (r: bool)
    ensures
        r == stands_at(s@, part@, 0),
{
    is_at(s, part, 0)
}

/// `s` ends with `part`.
pub fn ends_with(s: &str, part: &str) -> (r: bool)
    ensures
        r == stands_at(s@, part@, s@.len() - part@.len()),
{
    let n: usize = s.unicode_len();
    let m: usize = part.unicode_len();
    n >= m && is_at(s, part, n - m)
}

pub open spec fn digit(d: int) -> char {
    ((d + 48) as u32) as char
}

/// The decimal notation of a number.
pub open spec fn decimal_of(n: int) -> Seq<char>
    decreases n,
{
    if n < 10 {
        seq![digit(n)]
    } else {
        decimal_of(n / 10).push(digit(n % 10))
    }
}

fn digit_text(d: u64) -> (s: &'static str)
    requires
        d < 10,
    ensures
        s@ == seq![digit(d as int)],
{
    proof {
        reveal_strlit("0");
        reveal_strlit("1");
        reveal_strlit("2");
        reveal_strlit("3");
        reveal_strlit("4");
        reveal_strlit("5");
        reveal_strlit("6");
        reveal_strlit("7");
        reveal_strlit("8");
        reveal_strlit("9");
    }
    let s: &'static str = match d {
        0 => "0",
        1 => "1",
        2 => "2",
        3 => "3",
        4 => "4",
        5 => "5",
        6 => "6",
        7 => "7",
        8 => "8",
        _ => "9",
    };
    assert(s@ =~= seq![digit(d as int)]);
    s
}

/// The decimal notation of a number.
pub fn decimal(n: u64) -> (s: String)
    ensures
        s@ == decimal_of(n as int),
    decreases n,
{
    if n < 10 {
        String::from_str(digit_text(n))
    } else {
        let mut s = decimal(n / 10);
        s.append(digit_text(n % 10));
        assert(s@ =~= decimal_of(n as int));
        s
    }
}

/// `a` comes before `b` in the order of their characters.
pub open spec fn precedes(a: Seq<char>, b: Seq<char>) -> bool
    decreases a.len(),
{
    if b.len() == 0 {
        false
    } else if a.len() == 0 {
        true
    } else if a[0] != b[0] {
        a[0] < b[0]
    } else {
        precedes(a.drop_first(), b.drop_first())
    }
}

/// `a` comes before `b`.
pub fn comes_before(a: &str, b: &str) -> (r: bool)
    ensures
        r == precedes(a@, b@),
{
    let n: usize = a.unicode_len();
    let m: usize = b.unicode_len();
    let mut i: usize = 0;
    assert(a@.skip(0) =~= a@);
    assert(b@.skip(0) =~= b@);
    while i < n && i < m
        invariant
            n == a@.len(),
            m == b@.len(),
            i <= n,
            i <= m,
            precedes(a@, b@) == precedes(a@.skip(i as int), b@.skip(i as int)),
        decreases n - i,
    {
        let x: char = a.get_char(i);
        let y: char = b.get_char(i);
        if x != y {
            return x < y;
        }
        assert(a@.skip(i as int).drop_first() =~= a@.skip(i + 1));
        assert(b@.skip(i as int).drop_first() =~= b@.skip(i + 1));
        i = i + 1;
    }
    i < m
}

proof fn lemma_irreflexive(a: Seq<char>)
    ensures
        !precedes(a, a),
    decreases a.len(),
{
    if a.len() > 0 {
        lemma_irreflexive(a.drop_first());
    }
}

proof fn lemma_transitive(a: Seq<char>, b: Seq<char>, c: Seq<char>)
    requires
        precedes(a, b),
        precedes(b, c),
    ensures
        precedes(a, c),
    decreases a.len(),
{
    if a.len() > 0 && a[0] == b[0] && b[0] == c[0] {
        lemma_transitive(a.drop_first(), b.drop_first(), c.drop_first());
    }
}

proof fn lemma_total(a: Seq<char>, b: Seq<char>)
    ensures
        precedes(a, b) || precedes(b, a) || a == b,
    decreases a.len(),
{
    if a.len() > 0 && b.len() > 0 {
        if a[0] == b[0] {
            lemma_total(a.drop_first(), b.drop_first());
            if a.drop_first() == b.drop_first() {
                assert(a =~= seq![a[0]] + a.drop_first());
                assert(b =~= seq![b[0]] + b.drop_first());
            }
        }
    } else if a.len() == 0 && b.len() == 0 {
        assert(a =~= b);
    }
}

/// The order of texts is a strict total order.
pub proof fn lemma_order(a: Seq<char>, b: Seq<char>, c: Seq<char>)
    ensures
        !precedes(a, a),
        precedes(a, b) && precedes(b, c) ==> precedes(a, c),
        precedes(a, b) || precedes(b, a) || a == b,
        !(precedes(a, b) && precedes(b, a)),
{
    lemma_irreflexive(a);
    lemma_total(a, b);
    if precedes(a, b) && precedes(b, c) {
        lemma_transitive(a, b, c);
    }
    if precedes(a, b) && precedes(b, a) {
        lemma_transitive(a, b, a);
    }
}

/// The part of a path behind its last separator.
pub open spec fn file_part(path: Seq<char>) -> Seq<char>
    decreases path.len(),
{
    if path.len() == 0 || path.last() == '\\' || path.last() == '/' {
        Seq::empty()
    } else {
        file_part(path.drop_last()).push(path.last())
    }
}

/// The part of a path behind its last separator, whichever of the two it is.
pub fn file_name(path: &str) -> (r: &str)
    ensures
        r@ == file_part(path@),
{
    let n: usize = path.unicode_len();
    let mut k: usize = n;
    assert(path@.take(n as int) =~= path@);
    assert(path@.subrange(n as int, n as int) =~= Seq::empty());
    assert(file_part(path@) =~= file_part(path@.take(n as int)) + path@.subrange(
        n as int,
        n as int,
    ));
    while k > 0
        invariant_except_break
            file_part(path@) == file_part(path@.take(k as int)) + path@.subrange(k as int, n as int),
        invariant
            n == path@.len(),
            k <= n,
        ensures
            file_part(path@) == path@.subrange(k as int, n as int),
        decreases k,
    {
        let c: char = path.get_char(k - 1);
        assert(path@.take(k as int).last() == c);
        if c == '\\' || c == '/' {
            assert(file_part(path@) =~= path@.subrange(k as int, n as int));
            break;
        }
        assert(path@.take(k as int).drop_last() =~= path@.take(k - 1));
        assert(file_part(path@.take(k as int)) == file_part(path@.take(k - 1)).push(c));
        assert(file_part(path@) =~= file_part(path@.take(k - 1)) + path@.subrange(
            k - 1,
            n as int,
        ));
        k = k - 1;
        if k == 0 {
            assert(file_part(path@) =~= path@.subrange(0, n as int));
        }
    }
    path.substring_char(k, n)
}

/// Is a character a decimal digit?
pub open spec fn is_digit(c: char) -> bool {
    '0' <= c <= '9'
}

pub open spec fn all_digits(s: Seq<char>) -> bool {
    forall|i: int| 0 <= i < s.len() ==> is_digit(#[trigger] s[i])
}

/// The number that a row of digits stands for.
pub open spec fn value_of(s: Seq<char>) -> int
    decreases s.len(),
{
    if s.len() == 0 {
        0
    } else {
        10 * value_of(s.drop_last()) + (s.last() as int - 48)
    }
}

/// A number without its sign.
pub open spec fn unsigned_part(s: Seq<char>) -> Seq<char> {
    if s.len() > 0 && s[0] == '+' {
        s.skip(1)
    } else {
        s
    }
}

/// The number that a text stands for: digits, after a plus sign or not, up to `max`.
pub open spec fn number_of(s: Seq<char>, max: int) -> Option<int> {
    let d = unsigned_part(s);
    if d.len() > 0 && all_digits(d) && value_of(d) <= max {
        Some(value_of(d))
    } else {
        None
    }
}

proof fn lemma_value_grows(d: Seq<char>, i: int)
    requires
        all_digits(d),
        0 <= i <= d.len(),
    ensures
        0 <= value_of(d.take(i)) <= value_of(d),
    decreases d.len(),
{
    if i == d.len() {
        assert(d.take(i) =~= d);
        if d.len() > 0 {
            let rest = d.drop_last();
            assert(all_digits(rest)) by {
                assert forall|j: int| 0 <= j < rest.len() implies is_digit(#[trigger] rest[j]) by {
                    assert(is_digit(d[j]));
                }
            }
            lemma_value_grows(rest, rest.len() as int);
            assert(rest.take(rest.len() as int) =~= rest);
            assert(is_digit(d[d.len() - 1]));
        }
    } else {
        let rest = d.drop_last();
        assert(all_digits(rest)) by {
            assert forall|j: int| 0 <= j < rest.len() implies is_digit(#[trigger] rest[j]) by {
                assert(is_digit(d[j]));
            }
        }
        lemma_value_grows(rest, i);
        assert(rest.take(i) =~= d.take(i));
        assert(is_digit(d[d.len() - 1]));
    }
}

/// Reads a number of at most `max`.
pub fn parse_number(s: &str, max: u64) -> (n: Option<u64>)
    ensures
        n is Some == number_of(s@, max as int) is Some,
        n is Some ==> (n->0) as int == number_of(s@, max as int)->0,
{
    let len: usize = s.unicode_len();
    let mut start: usize = 0;
    if len > 0 && s.get_char(0) == '+' {
        start = 1;
    }
    let ghost d = unsigned_part(s@);
    assert(d.len() == len - start);
    assert(forall|j: int| 0 <= j < d.len() ==> d[j] == s@[j + start]);
    if start == len {
        return None;
    }
    let mut value: u64 = 0;
    let mut i: usize = start;
    assert(d.take(0) =~= Seq::<char>::empty());
    while i < len
        invariant
            start <= i <= len,
            len == s@.len(),
            d == unsigned_part(s@),
            d.len() == len - start,
            d.len() > 0,
            forall|j: int| 0 <= j < d.len() ==> d[j] == s@[j + start],
            forall|j: int| 0 <= j < i - start ==> is_digit(#[trigger] d[j]),
            value == value_of(d.take(i - start)),
            value <= max,
        decreases len - i,
    {
        let c = s.get_char(i);
        proof {
            assert(c == d[i - start]);
        }
        if c < '0' || c > '9' {
            proof {
                assert(!is_digit(d[i - start]));
            }
            return None;
        }
        let digit: u64 = (c as u32 - 48) as u64;
        proof {
            assert(d.take(i - start + 1).drop_last() =~= d.take(i - start));
            assert(d.take(i - start + 1).last() == c);
        }
        let next: u128 = 10 * (value as u128) + digit as u128;
        assert(next == value_of(d.take(i - start + 1)));
        if next > max as u128 {
            proof {
                if all_digits(d) {
                    lemma_value_grows(d, i - start + 1);
                }
            }
            return None;
        }
        value = next as u64;
        i = i + 1;
    }
    assert(d.take(i - start) =~= d);
    Some(value)
}

/// A number is read back from its decimal notation.
pub proof fn law_decimal_reads_back(n: int, max: int)
    requires
        0 <= n <= max,
    ensures
        number_of(decimal_of(n), max) == Some(n),
{
    lemma_decimal(n);
    let s = decimal_of(n);
    assert(is_digit(s[0]));
}

proof fn lemma_decimal(n: int)
    requires
        0 <= n,
    ensures
        decimal_of(n).len() > 0,
        all_digits(decimal_of(n)),
        value_of(decimal_of(n)) == n,
    decreases n,
{
    let s = decimal_of(n);
    if n < 10 {
        assert(s.drop_last() =~= Seq::<char>::empty());
        assert(s.last() as int == n + 48);
        assert(value_of(s.drop_last()) == 0);
    } else {
        lemma_decimal(n / 10);
        assert(s.drop_last() =~= decimal_of(n / 10));
        assert(s.last() == digit(n % 10));
        assert(n == 10 * (n / 10) + n % 10);
        assert(s.last() as int == n % 10 + 48);
        assert forall|j: int| 0 <= j < s.len() implies is_digit(#[trigger] s[j]) by {
            if j < s.len() - 1 {
                assert(s[j] == decimal_of(n / 10)[j]);
            }
        }
    }
}

/// Is a character white space, as Unicode defines it?
pub open spec fn is_white(c: char) -> bool {
    let n = c as u32;
    ||| 9 <= n <= 13
    ||| n == 32
    ||| n == 0x85
    ||| n == 0xA0
    ||| n == 0x1680
    ||| 0x2000 <= n <= 0x200A
    ||| n == 0x2028
    ||| n == 0x2029
    ||| n == 0x202F
    ||| n == 0x205F
    ||| n == 0x3000
}

fn white(c: char) -> (w: bool)
    ensures
        w == is_white(c),
{
    let n: u32 = c as u32;
    (9 <= n && n <= 13) || n == 32 || n == 0x85 || n == 0xA0 || n == 0x1680 || (0x2000 <= n && n
        <= 0x200A) || n == 0x2028 || n == 0x2029 || n == 0x202F || n == 0x205F || n == 0x3000
}

/// A text without the white space around it.
pub open spec fn trimmed(s: Seq<char>) -> Seq<char>
    decreases s.len(),
{
    if s.len() == 0 {
        s
    } else if is_white(s[0]) {
        trimmed(s.drop_first())
    } else if is_white(s.last()) {
        trimmed(s.drop_last())
    } else {
        s
    }
}

/// A text without the white space around it.
pub fn trim(s: &str) -> (r: &str)
    ensures
        r@ == trimmed(s@),
{
    let n: usize = s.unicode_len();
    let mut from: usize = 0;
    assert(s@.subrange(0, n as int) =~= s@);
    while from < n && white(s.get_char(from))
        invariant
            n == s@.len(),
            from <= n,
            trimmed(s@) == trimmed(s@.subrange(from as int, n as int)),
        decreases n - from,
    {
        assert(s@.subrange(from as int, n as int).drop_first() =~= s@.subrange(
            from + 1,
            n as int,
        ));
        from = from + 1;
    }
    let mut to: usize = n;
    while to > from && white(s.get_char(to - 1))
        invariant
            n == s@.len(),
            from <= to <= n,
            from < n ==> !is_white(s@[from as int]),
            trimmed(s@) == trimmed(s@.subrange(from as int, to as int)),
        decreases to,
    {
        proof {
            let part = s@.subrange(from as int, to as int);
            assert(part[0] == s@[from as int]);
            assert(part.last() == s@[to - 1]);
            assert(part.drop_last() =~= s@.subrange(from as int, to - 1));
        }
        to = to - 1;
    }
    proof {
        let part = s@.subrange(from as int, to as int);
        if to > from {
            assert(part[0] == s@[from as int]);
            assert(part.last() == s@[to - 1]);
        }
    }
    s.substring_char(from, to)
}

/// The lower case of a text, as Unicode defines it.
pub uninterp spec fn lower_case_of(s: Seq<char>) -> Seq<char>;

/// Calls `str::to_lowercase`, which gives the lower case of a text as Unicode defines it.
/// The contract names that text and says only that it depends on nothing else.
#[verifier::external_body]
pub(crate) fn lower_case(s: &str) -> (r: String)
    ensures
        r@ == lower_case_of(s@),
{
    s.to_lowercase()
}

/// Is a text empty?
pub fn is_empty(s: &str) -> (e: bool)
    ensures
        e == (s@.len() == 0),
{
    s.unicode_len() == 0
}

} // verus!
