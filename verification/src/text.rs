//! Text as sequences of characters.

use vstd::prelude::*;

verus! {

/// `String::push` of std: appends one character at the end.
pub assume_specification[ String::push ](s: &mut String, c: char)
    ensures
        final(s)@ == old(s)@.push(c),
;

/// All characters are ASCII.
pub open spec fn is_ascii_text(s: Seq<char>) -> bool {
    forall|i: int| 0 <= i < s.len() ==> #[trigger] s[i] as u32 <= 0x7f
}

/// The text with the capitals `A` to `Z` as `a` to `z`.
pub open spec fn ascii_lowered(s: Seq<char>) -> Seq<char> {
    s.map_values(
        |c: char|
            if 'A' <= c && c <= 'Z' {
                (c as u32 + 32) as char
            } else {
                c
            },
    )
}

/// The lower-case form that `str::to_lowercase` of std gives for a text with other
/// characters than ASCII.
pub uninterp spec fn unicode_lowered(s: Seq<char>) -> Seq<char>;

/// The lower-case form of a text.
pub open spec fn lowercase_of(s: Seq<char>) -> Seq<char> {
    if is_ascii_text(s) {
        ascii_lowered(s)
    } else {
        unicode_lowered(s)
    }
}

/// `str::to_lowercase` of std. Claimed: of ASCII text it changes `A` to `Z` into
/// `a` to `z` and nothing else; of other text the result depends on the text
/// alone.
#[verifier::external_body]
pub(crate) fn to_lowercase(s: &str) -> (r: String)
    ensures
        is_ascii_text(s@) ==> r@ == ascii_lowered(s@),
        !is_ascii_text(s@) ==> r@ == unicode_lowered(s@),
{
    s.to_lowercase()
}

/// The characters of a text as a vector.
pub fn chars_of(s: &str) -> (r: Vec<char>)
    ensures
        r@ == s@,
{
    let mut r: Vec<char> = Vec::new();
    for c in it: s.chars()
        invariant
            it.seq() == s@,
            r@ == it.seq().take(it.index()),
    {
        r.push(c);
        assert(it.seq().take(it.index() + 1) =~= it.seq().take(it.index()).push(c));
    }
    assert(s@.take(s@.len() as int) =~= s@);
    r
}

/// The text made of the characters `from..to`.
pub fn substring(cs: &Vec<char>, from: usize, to: usize) -> (r: String)
    requires
        from <= to <= cs@.len(),
    ensures
        r@ == cs@.subrange(from as int, to as int),
{
    let mut r = String::new();
    let mut i: usize = from;
    while i < to
        invariant
            from <= i <= to <= cs@.len(),
            r@ == cs@.subrange(from as int, i as int),
        decreases to - i,
    {
        r.push(cs[i]);
        assert(cs@.subrange(from as int, i + 1) =~= cs@.subrange(from as int, i as int).push(cs@[i as int]));
        i = i + 1;
    }
    r
}

/// The text made of all the characters.
pub fn string_of(cs: &Vec<char>) -> (r: String)
    ensures
        r@ == cs@,
{
    let r = substring(cs, 0, cs.len());
    assert(cs@.subrange(0, cs@.len() as int) =~= cs@);
    r
}

/// Whether two character vectors hold the same characters.
pub fn same_chars(a: &Vec<char>, b: &Vec<char>) -> (r: bool)
    ensures
        r == (a@ == b@),
{
    if a.len() != b.len() {
        return false;
    }
    let mut i: usize = 0;
    while i < a.len()
        invariant
            i <= a@.len(),
            a@.len() == b@.len(),
            a@.take(i as int) =~= b@.take(i as int),
        decreases a.len() - i,
    {
        if a[i] != b[i] {
            assert(a@ != b@);
            return false;
        }
        assert(a@.take(i + 1) =~= a@.take(i as int).push(a@[i as int]));
        assert(b@.take(i + 1) =~= b@.take(i as int).push(b@[i as int]));
        i = i + 1;
    }
    assert(a@.take(a@.len() as int) =~= a@);
    assert(b@.take(b@.len() as int) =~= b@);
    true
}

/// Whether two texts are equal.
pub fn same_text(a: &str, b: &str) -> (r: bool)
    ensures
        r == (a@ == b@),
{
    let x = chars_of(a);
    let y = chars_of(b);
    same_chars(&x, &y)
}

/// Two texts, one after the other.
pub fn join2(a: &str, b: &str) -> (r: String)
    ensures
        r@ == a@ + b@,
{
    let mut r = a.to_owned();
    r.append(b);
    r
}

/// Three texts, one after the other.
pub fn join3(a: &str, b: &str, c: &str) -> (r: String)
    ensures
        r@ == a@ + b@ + c@,
{
    let mut r = join2(a, b);
    r.append(c);
    r
}

/// The digit character of a number below ten.
pub open spec fn digit_char(d: nat) -> char {
    ('0' as nat + d) as char
}

/// The decimal digits of a number.
pub open spec fn decimal(n: nat) -> Seq<char>
    decreases n,
{
    if n < 10 {
        seq![digit_char(n)]
    } else {
        decimal(n / 10).push(digit_char(n % 10))
    }
}

fn digit(d: u64) -> (c: char)
    requires
        d < 10,
    ensures
        c == digit_char(d as nat),
{
    (48u8 + d as u8) as char
}

/// A number written in decimal.
pub fn decimal_text(n: u64) -> (r: String)
    ensures
        r@ == decimal(n as nat),
    decreases n,
{
    if n < 10 {
        let mut r = String::new();
        r.push(digit(n));
        assert(r@ =~= decimal(n as nat));
        r
    } else {
        let mut r = decimal_text(n / 10);
        r.push(digit(n % 10));
        r
    }
}

/// Code point order on texts: the first difference decides, a proper prefix
/// comes first.
pub open spec fn lex_less(a: Seq<char>, b: Seq<char>) -> bool
    decreases a.len(),
{
    if b.len() == 0 {
        false
    } else if a.len() == 0 {
        true
    } else if a[0] != b[0] {
        a[0] < b[0]
    } else {
        lex_less(a.drop_first(), b.drop_first())
    }
}

/// Whether one text comes before another in code point order.
pub fn text_less(a: &str, b: &str) -> (r: bool)
    ensures
        r == lex_less(a@, b@),
{
    let x = chars_of(a);
    let y = chars_of(b);
    let mut i: usize = 0;
    assert(x@.skip(0) =~= x@);
    assert(y@.skip(0) =~= y@);
    while i < x.len() && i < y.len()
        invariant
            i <= x@.len(),
            i <= y@.len(),
            x@ == a@,
            y@ == b@,
            lex_less(a@, b@) == lex_less(x@.skip(i as int), y@.skip(i as int)),
        decreases x.len() - i,
    {
        assert(x@.skip(i as int)[0] == x@[i as int]);
        assert(y@.skip(i as int)[0] == y@[i as int]);
        if x[i] != y[i] {
            return x[i] < y[i];
        }
        assert(x@.skip(i as int).drop_first() =~= x@.skip(i + 1));
        assert(y@.skip(i as int).drop_first() =~= y@.skip(i + 1));
        i = i + 1;
    }
    i < y.len()
}

/// Code point order never puts two texts each before the other.
pub proof fn lex_less_asymmetric(a: Seq<char>, b: Seq<char>)
    ensures
        !(lex_less(a, b) && lex_less(b, a)),
    decreases a.len(),
{
    if a.len() > 0 && b.len() > 0 && a[0] == b[0] {
        lex_less_asymmetric(a.drop_first(), b.drop_first());
    }
}

/// Texts that code point order does not separate are equal.
pub proof fn lex_less_connected(a: Seq<char>, b: Seq<char>)
    ensures
        !lex_less(a, b) && !lex_less(b, a) ==> a == b,
    decreases a.len(),
{
    if a.len() > 0 && b.len() > 0 {
        if a[0] == b[0] {
            lex_less_connected(a.drop_first(), b.drop_first());
            if a.drop_first() == b.drop_first() {
                assert(a =~= seq![a[0]] + a.drop_first());
                assert(b =~= seq![b[0]] + b.drop_first());
            }
        }
    } else if a.len() == 0 && b.len() == 0 {
        assert(a =~= b);
    }
}

/// Code point order is transitive.
pub proof fn lex_less_transitive(a: Seq<char>, b: Seq<char>, c: Seq<char>)
    requires
        lex_less(a, b),
        lex_less(b, c),
    ensures
        lex_less(a, c),
    decreases a.len(),
{
    if a.len() > 0 && b.len() > 0 && c.len() > 0 && a[0] == b[0] && b[0] == c[0] {
        lex_less_transitive(a.drop_first(), b.drop_first(), c.drop_first());
    }
}

/// White space: the characters of Unicode's `White_Space` property.
pub open spec fn is_space(c: char) -> bool {
    ('\u{9}' <= c && c <= '\u{d}') || c == ' ' || c == '\u{85}' || c == '\u{a0}' || c == '\u{1680}'
        || ('\u{2000}' <= c && c <= '\u{200a}') || c == '\u{2028}' || c == '\u{2029}' || c
        == '\u{202f}' || c == '\u{205f}' || c == '\u{3000}'
}

fn space(c: char) -> (r: bool)
    ensures
        r == is_space(c),
{
    ('\u{9}' <= c && c <= '\u{d}') || c == ' ' || c == '\u{85}' || c == '\u{a0}' || c == '\u{1680}'
        || ('\u{2000}' <= c && c <= '\u{200a}') || c == '\u{2028}' || c == '\u{2029}' || c
        == '\u{202f}' || c == '\u{205f}' || c == '\u{3000}'
}

/// The first place from `k` on that is no white space.
pub open spec fn after_spaces(s: Seq<char>, k: int) -> int
    decreases s.len() - k,
{
    if k < s.len() && is_space(s[k]) {
        after_spaces(s, k + 1)
    } else {
        k
    }
}

/// The place behind the last character before `k`, but not before `lo`, that is
/// no white space.
pub open spec fn before_spaces(s: Seq<char>, lo: int, k: int) -> int
    decreases k,
{
    if k > lo && k > 0 && is_space(s[k - 1]) {
        before_spaces(s, lo, k - 1)
    } else {
        k
    }
}

/// A text without the white space at its ends.
pub open spec fn trimmed(s: Seq<char>) -> Seq<char> {
    let a = after_spaces(s, 0);
    s.subrange(a, before_spaces(s, a, s.len() as int))
}

/// A text whose ends are no white space is trimmed already.
pub proof fn trimmed_same(s: Seq<char>)
    requires
        s.len() == 0 || (!is_space(s[0]) && !is_space(s.last())),
    ensures
        trimmed(s) == s,
{
    assert(after_spaces(s, 0) == 0);
    assert(before_spaces(s, 0, s.len() as int) == s.len());
    assert(s.subrange(0, s.len() as int) =~= s);
}

proof fn after_spaces_range(s: Seq<char>, k: int)
    requires
        0 <= k <= s.len(),
    ensures
        k <= after_spaces(s, k) <= s.len(),
    decreases s.len() - k,
{
    if k < s.len() && is_space(s[k]) {
        after_spaces_range(s, k + 1);
    }
}

proof fn before_spaces_range(s: Seq<char>, lo: int, k: int)
    requires
        0 <= lo <= k,
    ensures
        lo <= before_spaces(s, lo, k) <= k,
    decreases k,
{
    if k > lo && k > 0 && is_space(s[k - 1]) {
        before_spaces_range(s, lo, k - 1);
    }
}

/// A text without the white space at its ends.
pub fn trim(cs: &Vec<char>) -> (r: Vec<char>)
    ensures
        r@ == trimmed(cs@),
{
    let mut a: usize = 0;
    proof {
        after_spaces_range(cs@, 0);
    }
    while a < cs.len() && space(cs[a])
        invariant
            a <= cs@.len(),
            after_spaces(cs@, 0) == after_spaces(cs@, a as int),
        decreases cs.len() - a,
    {
        a = a + 1;
    }
    let mut b: usize = cs.len();
    proof {
        before_spaces_range(cs@, a as int, b as int);
    }
    while b > a && space(cs[b - 1])
        invariant
            a <= b <= cs@.len(),
            before_spaces(cs@, a as int, cs@.len() as int) == before_spaces(
                cs@,
                a as int,
                b as int,
            ),
        decreases b,
    {
        b = b - 1;
    }
    piece(cs, a, b)
}

/// The first place from `k` on that does not hold `c`.
pub open spec fn after_char(s: Seq<char>, c: char, k: int) -> int
    decreases s.len() - k,
{
    if k < s.len() && s[k] == c {
        after_char(s, c, k + 1)
    } else {
        k
    }
}

/// The place behind the last character before `k`, but not before `lo`, that is
/// not `c`.
pub open spec fn before_char(s: Seq<char>, c: char, lo: int, k: int) -> int
    decreases k,
{
    if k > lo && k > 0 && s[k - 1] == c {
        before_char(s, c, lo, k - 1)
    } else {
        k
    }
}

/// A text without the run of a character at either end.
pub open spec fn stripped(s: Seq<char>, c: char) -> Seq<char> {
    let a = after_char(s, c, 0);
    s.subrange(a, before_char(s, c, a, s.len() as int))
}

/// A text without the run of a character at either end.
pub fn strip(cs: &Vec<char>, c: char) -> (r: Vec<char>)
    ensures
        r@ == stripped(cs@, c),
{
    let mut a: usize = 0;
    while a < cs.len() && cs[a] == c
        invariant
            a <= cs@.len(),
            after_char(cs@, c, 0) == after_char(cs@, c, a as int),
        decreases cs.len() - a,
    {
        a = a + 1;
    }
    let mut b: usize = cs.len();
    while b > a && cs[b - 1] == c
        invariant
            a <= b <= cs@.len(),
            before_char(cs@, c, a as int, cs@.len() as int) == before_char(
                cs@,
                c,
                a as int,
                b as int,
            ),
        decreases b,
    {
        b = b - 1;
    }
    piece(cs, a, b)
}

/// The characters `from..to`.
pub fn piece(cs: &Vec<char>, from: usize, to: usize) -> (r: Vec<char>)
    requires
        from <= to <= cs@.len(),
    ensures
        r@ == cs@.subrange(from as int, to as int),
{
    let mut r: Vec<char> = Vec::new();
    let mut i: usize = from;
    while i < to
        invariant
            from <= i <= to <= cs@.len(),
            r@ == cs@.subrange(from as int, i as int),
        decreases to - i,
    {
        r.push(cs[i]);
        assert(cs@.subrange(from as int, i + 1) =~= cs@.subrange(from as int, i as int).push(
            cs@[i as int],
        ));
        i = i + 1;
    }
    r
}

/// The first place from `k` on that holds the character; the end where none does.
pub open spec fn place_of(s: Seq<char>, c: char, k: int) -> int
    decreases s.len() - k,
{
    if k >= s.len() {
        s.len() as int
    } else if s[k] == c {
        k
    } else {
        place_of(s, c, k + 1)
    }
}

/// The first place is in the text or its end; nothing before it holds the
/// character.
pub proof fn place_of_range(s: Seq<char>, c: char, k: int)
    requires
        0 <= k <= s.len(),
    ensures
        k <= place_of(s, c, k) <= s.len(),
        forall|i: int| k <= i < place_of(s, c, k) ==> #[trigger] s[i] != c,
        place_of(s, c, k) < s.len() ==> s[place_of(s, c, k)] == c,
    decreases s.len() - k,
{
    if k < s.len() && s[k] != c {
        place_of_range(s, c, k + 1);
    }
}

/// The first place that holds the character is where it stands after a stretch
/// without it.
pub proof fn place_of_is(s: Seq<char>, c: char, k: int, n: int)
    requires
        0 <= k <= n <= s.len(),
        forall|i: int| k <= i < n ==> #[trigger] s[i] != c,
        n < s.len() ==> s[n] == c,
    ensures
        place_of(s, c, k) == n,
    decreases n - k,
{
    if k < n {
        place_of_is(s, c, k + 1, n);
    }
}

/// The first place from `k` on that holds the character; the end where none does.
pub fn find_char(cs: &Vec<char>, c: char, k: usize) -> (r: usize)
    requires
        k <= cs@.len(),
    ensures
        r == place_of(cs@, c, k as int),
        k <= r <= cs@.len(),
{
    let mut i: usize = k;
    while i < cs.len() && cs[i] != c
        invariant
            k <= i <= cs@.len(),
            place_of(cs@, c, k as int) == place_of(cs@, c, i as int),
        decreases cs.len() - i,
    {
        i = i + 1;
    }
    i
}

pub open spec fn is_digit(c: char) -> bool {
    '0' <= c && c <= '9'
}

/// All characters are digits.
pub open spec fn all_digits(s: Seq<char>) -> bool {
    forall|i: int| 0 <= i < s.len() ==> is_digit(#[trigger] s[i])
}

/// The value of digits.
pub open spec fn digits_value(s: Seq<char>) -> nat
    decreases s.len(),
{
    if s.len() == 0 {
        0
    } else {
        digits_value(s.drop_last()) * 10 + (s.last() as nat - '0' as nat) as nat
    }
}

/// The number that a text denotes: digits, at least one, with a plus sign before
/// them or none, of a value up to `max`.
pub open spec fn number_in(s: Seq<char>, max: nat) -> Option<nat> {
    let digits = if s.len() > 0 && s[0] == '+' {
        s.skip(1)
    } else {
        s
    };
    if digits.len() > 0 && all_digits(digits) && digits_value(digits) <= max {
        Some(digits_value(digits))
    } else {
        None
    }
}

proof fn digits_value_grows(s: Seq<char>, k: int)
    requires
        0 <= k <= s.len(),
    ensures
        digits_value(s.take(k)) <= digits_value(s),
    decreases s.len() - k,
{
    if k < s.len() {
        digits_value_grows(s, k + 1);
        assert(s.take(k + 1).drop_last() =~= s.take(k));
    } else {
        assert(s.take(k) =~= s);
    }
}

/// The number that a text denotes.
pub fn parse_number(cs: &Vec<char>, max: u64) -> (r: Option<u64>)
    ensures
        number_in(cs@, max as nat) == (match r {
            Some(n) => Some(n as nat),
            None => None,
        }),
{
    let start: usize = if cs.len() > 0 && cs[0] == '+' {
        1
    } else {
        0
    };
    let ghost digits = if cs@.len() > 0 && cs@[0] == '+' {
        cs@.skip(1)
    } else {
        cs@
    };
    if start >= cs.len() {
        return None;
    }
    let mut n: u64 = 0;
    let mut i: usize = start;
    assert(digits.take(0) =~= Seq::empty());
    assert(cs@.skip(0) =~= cs@);
    while i < cs.len()
        invariant
            start <= i <= cs@.len(),
            start == 0 || start == 1,
            digits == cs@.skip(start as int),
            digits == (if cs@.len() > 0 && cs@[0] == '+' {
                cs@.skip(1)
            } else {
                cs@
            }),
            forall|k: int| 0 <= k < i - start ==> is_digit(#[trigger] digits[k]),
            n == digits_value(digits.take(i - start)),
            n <= max,
        decreases cs.len() - i,
    {
        let c = cs[i];
        assert(digits[i - start] == c);
        if !('0' <= c && c <= '9') {
            assert(!is_digit(digits[i - start]));
            return None;
        }
        let ghost head = digits.take(i - start + 1);
        proof {
            assert(head.drop_last() =~= digits.take(i - start));
            assert(head.last() == c);
            digits_value_grows(digits, i - start + 1);
        }
        let d: u64 = (c as u32 - '0' as u32) as u64;
        let next: u128 = n as u128 * 10 + d as u128;
        assert(next == digits_value(head));
        if next > max as u128 {
            return None;
        }
        n = next as u64;
        i = i + 1;
    }
    assert(digits.take(digits.len() as int) =~= digits);
    Some(n)
}

/// A number's decimal digits denote it.
pub proof fn decimal_denotes(n: nat)
    ensures
        decimal(n).len() > 0,
        all_digits(decimal(n)),
        digits_value(decimal(n)) == n,
    decreases n,
{
    if n < 10 {
        let s = decimal(n);
        assert(s.drop_last() =~= Seq::empty());
        assert(digits_value(s.drop_last()) == 0);
    } else {
        decimal_denotes(n / 10);
        let s = decimal(n);
        assert(s.drop_last() =~= decimal(n / 10));
        assert forall|i: int| 0 <= i < s.len() implies is_digit(#[trigger] s[i]) by {
            if i < s.len() - 1 {
                assert(s[i] == decimal(n / 10)[i]);
            }
        }
    }
}

/// A number written in decimal is read back.
pub proof fn decimal_read_back(n: nat, max: nat)
    requires
        n <= max,
    ensures
        number_in(decimal(n), max) == Some(n),
{
    decimal_denotes(n);
    assert(is_digit(decimal(n)[0]));
}

/// A letter of the Latin alphabet in lower case; other characters as they are.
pub open spec fn ascii_lower(c: char) -> char {
    if 'A' <= c && c <= 'Z' {
        (c as u32 + 32) as char
    } else {
        c
    }
}

/// Two texts are equal but for the case of Latin letters.
pub open spec fn same_ignoring_case(a: Seq<char>, b: Seq<char>) -> bool {
    a.len() == b.len() && forall|i: int|
        0 <= i < a.len() ==> ascii_lower(#[trigger] a[i]) == ascii_lower(b[i])
}

fn lower(c: char) -> (r: char)
    ensures
        r == ascii_lower(c),
{
    if 'A' <= c && c <= 'Z' {
        (c as u8 + 32) as char
    } else {
        c
    }
}

/// Whether two texts are equal but for the case of Latin letters.
pub fn equals_ignoring_case(a: &str, b: &str) -> (r: bool)
    ensures
        r == same_ignoring_case(a@, b@),
{
    let x = chars_of(a);
    let y = chars_of(b);
    if x.len() != y.len() {
        return false;
    }
    let mut i: usize = 0;
    while i < x.len()
        invariant
            i <= x@.len(),
            x@.len() == y@.len(),
            x@ == a@,
            y@ == b@,
            forall|k: int| 0 <= k < i ==> ascii_lower(#[trigger] x@[k]) == ascii_lower(y@[k]),
        decreases x.len() - i,
    {
        if lower(x[i]) != lower(y[i]) {
            assert(ascii_lower(a@[i as int]) != ascii_lower(b@[i as int]));
            return false;
        }
        i = i + 1;
    }
    true
}

proof fn after_spaces_are_spaces(s: Seq<char>, k: int)
    requires
        0 <= k <= s.len(),
    ensures
        forall|i: int| k <= i < after_spaces(s, k) ==> is_space(#[trigger] s[i]),
        after_spaces(s, k) < s.len() ==> !is_space(s[after_spaces(s, k)]),
    decreases s.len() - k,
{
    if k < s.len() && is_space(s[k]) {
        after_spaces_are_spaces(s, k + 1);
    }
}

proof fn before_spaces_are_spaces(s: Seq<char>, lo: int, k: int)
    requires
        0 <= lo <= k <= s.len(),
    ensures
        forall|i: int| before_spaces(s, lo, k) <= i < k ==> is_space(#[trigger] s[i]),
        before_spaces(s, lo, k) > lo ==> !is_space(s[before_spaces(s, lo, k) - 1]),
    decreases k,
{
    if k > lo && k > 0 && is_space(s[k - 1]) {
        before_spaces_are_spaces(s, lo, k - 1);
    }
}

/// Trimming takes off white space at the ends, all of it and nothing else.
pub proof fn trimmed_is_middle(s: Seq<char>) -> (r: (int, int))
    ensures
        0 <= r.0 <= r.1 <= s.len(),
        trimmed(s) == s.subrange(r.0, r.1),
        forall|i: int| 0 <= i < r.0 ==> is_space(#[trigger] s[i]),
        forall|i: int| r.1 <= i < s.len() ==> is_space(#[trigger] s[i]),
        trimmed(s).len() > 0 ==> !is_space(trimmed(s)[0]) && !is_space(trimmed(s).last()),
{
    let a = after_spaces(s, 0);
    let b = before_spaces(s, a, s.len() as int);
    after_spaces_range(s, 0);
    after_spaces_are_spaces(s, 0);
    before_spaces_range(s, a, s.len() as int);
    before_spaces_are_spaces(s, a, s.len() as int);
    (a, b)
}

proof fn after_char_range(s: Seq<char>, c: char, k: int)
    requires
        0 <= k <= s.len(),
    ensures
        k <= after_char(s, c, k) <= s.len(),
        forall|i: int| k <= i < after_char(s, c, k) ==> #[trigger] s[i] == c,
        after_char(s, c, k) < s.len() ==> s[after_char(s, c, k)] != c,
    decreases s.len() - k,
{
    if k < s.len() && s[k] == c {
        after_char_range(s, c, k + 1);
    }
}

proof fn before_char_range(s: Seq<char>, c: char, lo: int, k: int)
    requires
        0 <= lo <= k <= s.len(),
    ensures
        lo <= before_char(s, c, lo, k) <= k,
        forall|i: int| before_char(s, c, lo, k) <= i < k ==> #[trigger] s[i] == c,
        before_char(s, c, lo, k) > lo ==> s[before_char(s, c, lo, k) - 1] != c,
    decreases k,
{
    if k > lo && k > 0 && s[k - 1] == c {
        before_char_range(s, c, lo, k - 1);
    }
}

/// Stripping takes off a character at the ends, as often as it stands there, and
/// nothing else.
pub proof fn stripped_is_middle(s: Seq<char>, c: char) -> (r: (int, int))
    ensures
        0 <= r.0 <= r.1 <= s.len(),
        stripped(s, c) == s.subrange(r.0, r.1),
        forall|i: int| 0 <= i < r.0 ==> #[trigger] s[i] == c,
        forall|i: int| r.1 <= i < s.len() ==> #[trigger] s[i] == c,
        stripped(s, c).len() > 0 ==> stripped(s, c)[0] != c && stripped(s, c).last() != c,
{
    let a = after_char(s, c, 0);
    after_char_range(s, c, 0);
    before_char_range(s, c, a, s.len() as int);
    (a, before_char(s, c, a, s.len() as int))
}

/// Two middles of a text agree where both end in front of and behind what is to be kept.
proof fn middle_is_one(s: Seq<char>, a: int, b: int, x: int, y: int, off: spec_fn(char) -> bool)
    requires
        0 <= a < b <= s.len(),
        0 <= x <= y <= s.len(),
        forall|i: int| 0 <= i < x ==> off(#[trigger] s[i]),
        forall|i: int| y <= i < s.len() ==> off(#[trigger] s[i]),
        forall|i: int| 0 <= i < a ==> off(#[trigger] s[i]),
        forall|i: int| b <= i < s.len() ==> off(#[trigger] s[i]),
        !off(s[a]),
        !off(s[b - 1]),
        x < y ==> !off(s[x]) && !off(s[y - 1]),
    ensures
        a == x,
        b == y,
{
    if x == y {
        if a < x {
            assert(off(s[a]));
        } else {
            assert(off(s[a]));
        }
    } else {
        if a < x {
            assert(off(s[a]));
        }
        if x < a {
            assert(off(s[x]));
        }
        if b < y {
            assert(off(s[y - 1]));
        }
        if y < b {
            assert(off(s[b - 1]));
        }
    }
}

/// A text between runs of a character is what stripping leaves of them.
pub proof fn stripped_of_framed(left: Seq<char>, t: Seq<char>, right: Seq<char>, c: char)
    requires
        t.len() > 0,
        t[0] != c,
        t.last() != c,
        forall|i: int| 0 <= i < left.len() ==> #[trigger] left[i] == c,
        forall|i: int| 0 <= i < right.len() ==> #[trigger] right[i] == c,
    ensures
        stripped(left + t + right, c) == t,
{
    let s = left + t + right;
    let (a, b) = (left.len() as int, (left.len() + t.len()) as int);
    let (x, y) = stripped_is_middle(s, c);
    assert(s[a] == t[0] && s[b - 1] == t.last());
    assert forall|i: int| b <= i < s.len() implies #[trigger] s[i] == c by {
        assert(s[i] == right[i - b]);
    }
    assert forall|i: int| 0 <= i < a implies #[trigger] s[i] == c by {
        assert(s[i] == left[i]);
    }
    assert(x < y ==> s[x] == stripped(s, c)[0] && s[y - 1] == stripped(s, c).last());
    middle_is_one(s, a, b, x, y, |d: char| d == c);
    assert(s.subrange(a, b) =~= t);
}

/// A text between white space is what trimming leaves of them.
pub proof fn trimmed_of_framed(left: Seq<char>, t: Seq<char>, right: Seq<char>)
    requires
        t.len() > 0,
        !is_space(t[0]),
        !is_space(t.last()),
        forall|i: int| 0 <= i < left.len() ==> is_space(#[trigger] left[i]),
        forall|i: int| 0 <= i < right.len() ==> is_space(#[trigger] right[i]),
    ensures
        trimmed(left + t + right) == t,
{
    let s = left + t + right;
    let (a, b) = (left.len() as int, (left.len() + t.len()) as int);
    let (x, y) = trimmed_is_middle(s);
    assert(s[a] == t[0] && s[b - 1] == t.last());
    assert forall|i: int| b <= i < s.len() implies is_space(#[trigger] s[i]) by {
        assert(s[i] == right[i - b]);
    }
    assert forall|i: int| 0 <= i < a implies is_space(#[trigger] s[i]) by {
        assert(s[i] == left[i]);
    }
    assert(x < y ==> s[x] == trimmed(s)[0] && s[y - 1] == trimmed(s).last());
    middle_is_one(s, a, b, x, y, |d: char| is_space(d));
    assert(s.subrange(a, b) =~= t);
}

/// Texts are the same up to case exactly where they are equally long and at each place hold
/// the same character, or an ASCII letter once small and once large.
pub proof fn case_is_ignored(a: Seq<char>, b: Seq<char>)
    ensures
        same_ignoring_case(a, b) <==> a.len() == b.len() && forall|i: int|
            0 <= i < a.len() ==> differ_in_case(#[trigger] a[i], b[i]),
{
    if same_ignoring_case(a, b) {
        assert forall|i: int| 0 <= i < a.len() implies differ_in_case(#[trigger] a[i], b[i]) by {
            lower_tells_case(a[i], b[i]);
        }
    }
    if a.len() == b.len() && forall|i: int|
        0 <= i < a.len() ==> differ_in_case(#[trigger] a[i], b[i]) {
        assert forall|i: int| 0 <= i < a.len() implies ascii_lower(#[trigger] a[i]) == ascii_lower(
            b[i],
        ) by {
            lower_tells_case(a[i], b[i]);
        }
    }
}

/// The characters are the same, or a letter from `a` to `z` and its capital.
pub open spec fn differ_in_case(c: char, d: char) -> bool {
    c == d || ('a' <= c && c <= 'z' && c as u32 == d as u32 + 32) || ('a' <= d && d <= 'z' && d as u32
        == c as u32 + 32)
}

proof fn lower_tells_case(c: char, d: char)
    ensures
        ascii_lower(c) == ascii_lower(d) <==> differ_in_case(c, d),
{
}

} // verus!
