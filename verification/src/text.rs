//! Strings as sequences of characters: trimming, comparing, and decimal notation.

use vstd::prelude::*;
use vstd::string::*;
use vstd::utf8::*;

verus! {

/// The characters with the Unicode property `White_Space`.
pub open spec fn white_space(c: char) -> bool {
    ||| 0x9 <= c as u32 <= 0xd
    ||| c as u32 == 0x20
    ||| c as u32 == 0x85
    ||| c as u32 == 0xa0
    ||| c as u32 == 0x1680
    ||| 0x2000 <= c as u32 <= 0x200a
    ||| c as u32 == 0x2028
    ||| c as u32 == 0x2029
    ||| c as u32 == 0x202f
    ||| c as u32 == 0x205f
    ||| c as u32 == 0x3000
}

/// `s` without the longest run of white space at its start.
pub open spec fn trimmed_start(s: Seq<char>) -> Seq<char>
    decreases s.len(),
{
    if s.len() > 0 && white_space(s[0]) {
        trimmed_start(s.drop_first())
    } else {
        s
    }
}

/// `s` without the longest run of white space at its end.
pub open spec fn trimmed_end(s: Seq<char>) -> Seq<char>
    decreases s.len(),
{
    if s.len() > 0 && white_space(s.last()) {
        trimmed_end(s.drop_last())
    } else {
        s
    }
}

/// `s` without white space at either end.
pub open spec fn trimmed(s: Seq<char>) -> Seq<char> {
    trimmed_end(trimmed_start(s))
}

/// `s` without the longest run of `c` at its end.
pub open spec fn without_trailing(s: Seq<char>, c: char) -> Seq<char>
    decreases s.len(),
{
    if s.len() > 0 && s.last() == c {
        without_trailing(s.drop_last(), c)
    } else {
        s
    }
}

/// The first `n` characters of `s`, or all of it where it is shorter.
pub open spec fn prefix_of_at_most(s: Seq<char>, n: int) -> Seq<char> {
    if s.len() <= n {
        s
    } else {
        s.take(n)
    }
}

proof fn lemma_trimmed_start(s: Seq<char>, start: int)
    requires
        0 <= start <= s.len(),
        forall|i: int| 0 <= i < start ==> white_space(#[trigger] s[i]),
        start < s.len() ==> !white_space(s[start]),
    ensures
        trimmed_start(s) == s.skip(start),
    decreases s.len(),
{
    if start > 0 {
        let rest = s.drop_first();
        assert forall|i: int| 0 <= i < start - 1 implies white_space(#[trigger] rest[i]) by {
            assert(rest[i] == s[i + 1]);
        }
        lemma_trimmed_start(rest, start - 1);
        assert(rest.skip(start - 1) =~= s.skip(start));
    } else {
        assert(s.skip(0) =~= s);
    }
}

proof fn lemma_trimmed_end(s: Seq<char>, end: int)
    requires
        0 <= end <= s.len(),
        forall|i: int| end <= i < s.len() ==> white_space(#[trigger] s[i]),
        end > 0 ==> !white_space(s[end - 1]),
    ensures
        trimmed_end(s) == s.take(end),
    decreases s.len(),
{
    if end < s.len() {
        let rest = s.drop_last();
        assert forall|i: int| end <= i < rest.len() implies white_space(#[trigger] rest[i]) by {
            assert(rest[i] == s[i]);
        }
        assert(white_space(s[s.len() - 1]));
        lemma_trimmed_end(rest, end);
        assert(rest.take(end) =~= s.take(end));
    } else {
        assert(s.take(end) =~= s);
    }
}

proof fn lemma_without_trailing(s: Seq<char>, c: char, end: int)
    requires
        0 <= end <= s.len(),
        forall|i: int| end <= i < s.len() ==> #[trigger] s[i] == c,
        end > 0 ==> s[end - 1] != c,
    ensures
        without_trailing(s, c) == s.take(end),
    decreases s.len(),
{
    if end < s.len() {
        let rest = s.drop_last();
        assert forall|i: int| end <= i < rest.len() implies #[trigger] rest[i] == c by {
            assert(rest[i] == s[i]);
        }
        assert(s[s.len() - 1] == c);
        lemma_without_trailing(rest, c, end);
        assert(rest.take(end) =~= s.take(end));
    } else {
        assert(s.take(end) =~= s);
    }
}

proof fn lemma_trimmed_start_clean(s: Seq<char>)
    ensures
        trimmed_start(s).len() > 0 ==> !white_space(trimmed_start(s)[0]),
    decreases s.len(),
{
    if s.len() > 0 && white_space(s[0]) {
        lemma_trimmed_start_clean(s.drop_first());
    }
}

proof fn lemma_trimmed_end_clean(s: Seq<char>)
    ensures
        trimmed_end(s).is_prefix_of(s),
        trimmed_end(s).len() > 0 ==> !white_space(trimmed_end(s).last()),
    decreases s.len(),
{
    if s.len() > 0 && white_space(s.last()) {
        lemma_trimmed_end_clean(s.drop_last());
        let t = trimmed_end(s);
        assert(t =~= s.subrange(0, t.len() as int));
    } else {
        assert(s =~= s.subrange(0, s.len() as int));
    }
}

/// A trimmed text has no white space at either end, so that trimming it again changes nothing.
pub proof fn law_trimmed_once(s: Seq<char>)
    ensures
        trimmed(s).len() > 0 ==> !white_space(trimmed(s)[0]) && !white_space(trimmed(s).last()),
        trimmed(trimmed(s)) == trimmed(s),
{
    lemma_trimmed_start_clean(s);
    lemma_trimmed_end_clean(trimmed_start(s));
}

/// Whether `c` is white space.
pub fn is_white_space(c: char) -> (b: bool)
    ensures
        b == white_space(c),
{
    let u: u32 = c as u32;
    (0x9 <= u && u <= 0xd) || u == 0x20 || u == 0x85 || u == 0xa0 || u == 0x1680 || (0x2000 <= u
        && u <= 0x200a) || u == 0x2028 || u == 0x2029 || u == 0x202f || u == 0x205f || u == 0x3000
}

/// `s` without white space at either end.
pub fn trim(s: &str) -> (r: &str)
    ensures
        r@ == trimmed(s@),
{
    let len: usize = s.unicode_len();
    let mut n: usize = 0;
    let mut start: usize = 0;
    let mut end: usize = 0;
    for c in it: s.chars()
        invariant
            it.seq() == s@,
            len == s@.len(),
            n == it.index(),
            start <= n,
            end <= n,
            forall|i: int| 0 <= i < start ==> white_space(#[trigger] s@[i]),
            start < n ==> !white_space(s@[start as int]) && start < end,
            start == n ==> end == 0,
            forall|i: int| end <= i < n ==> white_space(#[trigger] s@[i]),
            end > 0 ==> !white_space(s@[end - 1]),
    {
        let white: bool = is_white_space(c);
        if white {
            if start == n {
                start = n + 1;
            }
        } else {
            end = n + 1;
        }
        n = n + 1;
    }
    proof {
        lemma_trimmed_start(s@, start as int);
        let rest = s@.skip(start as int);
        let kept = if end < start { 0 } else { end - start };
        assert forall|i: int| kept <= i < rest.len() implies white_space(#[trigger] rest[i]) by {
            assert(rest[i] == s@[i + start]);
        }
        lemma_trimmed_end(rest, kept);
    }
    if end < start {
        proof {
            assert(s@.skip(start as int).take(0) =~= s@.subrange(0, 0));
        }
        s.substring_char(0, 0)
    } else {
        proof {
            assert(s@.skip(start as int).take(end - start) =~= s@.subrange(
                start as int,
                end as int,
            ));
        }
        s.substring_char(start, end)
    }
}

/// `s` without white space at its end.
pub fn trim_end(s: &str) -> (r: &str)
    ensures
        r@ == trimmed_end(s@),
{
    let len: usize = s.unicode_len();
    let mut n: usize = 0;
    let mut end: usize = 0;
    for c in it: s.chars()
        invariant
            it.seq() == s@,
            len == s@.len(),
            n == it.index(),
            end <= n,
            forall|i: int| end <= i < n ==> white_space(#[trigger] s@[i]),
            end > 0 ==> !white_space(s@[end - 1]),
    {
        n = n + 1;
        if !is_white_space(c) {
            end = n;
        }
    }
    proof {
        lemma_trimmed_end(s@, end as int);
        assert(s@.take(end as int) =~= s@.subrange(0, end as int));
    }
    s.substring_char(0, end)
}

/// `s` without the run of `c` at its end.
pub fn trim_end_char(s: &str, c: char) -> (r: &str)
    ensures
        r@ == without_trailing(s@, c),
{
    let len: usize = s.unicode_len();
    let mut n: usize = 0;
    let mut end: usize = 0;
    for d in it: s.chars()
        invariant
            it.seq() == s@,
            len == s@.len(),
            n == it.index(),
            end <= n,
            forall|i: int| end <= i < n ==> #[trigger] s@[i] == c,
            end > 0 ==> s@[end - 1] != c,
    {
        n = n + 1;
        if d != c {
            end = n;
        }
    }
    proof {
        lemma_without_trailing(s@, c, end as int);
        assert(s@.take(end as int) =~= s@.subrange(0, end as int));
    }
    s.substring_char(0, end)
}

/// The first `n` characters of `s`, or all of it where it is shorter.
pub fn take_chars(s: &str, n: usize) -> (r: &str)
    ensures
        r@ == prefix_of_at_most(s@, n as int),
{
    let len: usize = s.unicode_len();
    if len <= n {
        s
    } else {
        proof {
            assert(s@.take(n as int) =~= s@.subrange(0, n as int));
        }
        s.substring_char(0, n)
    }
}

/// Whether `a` and `b` hold the same characters.
pub fn str_eq(a: &str, b: &str) -> (same: bool)
    ensures
        same == (a@ == b@),
{
    let x: &[u8] = a.as_bytes();
    let y: &[u8] = b.as_bytes();
    proof {
        encode_utf8_decode_utf8(a@);
        encode_utf8_decode_utf8(b@);
    }
    if x.len() != y.len() {
        return false;
    }
    let mut i: usize = 0;
    while i < x.len()
        invariant
            x@ == encode_utf8(a@),
            y@ == encode_utf8(b@),
            x@.len() == y@.len(),
            i <= x@.len(),
            forall|j: int| 0 <= j < i ==> x@[j] == y@[j],
        decreases x.len() - i,
    {
        if x[i] != y[i] {
            return false;
        }
        i = i + 1;
    }
    assert(x@ =~= y@);
    true
}

/// What follows `prefix` in `s`, where `s` starts with it.
pub fn strip_prefix<'a>(s: &'a str, prefix: &str) -> (r: Option<&'a str>)
    ensures
        r is Some <==> prefix@.is_prefix_of(s@),
        r matches Some(rest) ==> rest@ == s@.skip(prefix@.len() as int),
{
    let len: usize = s.unicode_len();
    let n: usize = prefix.unicode_len();
    if len < n {
        return None;
    }
    let head: &str = s.substring_char(0, n);
    if str_eq(head, prefix) {
        proof {
            assert(s@.skip(n as int) =~= s@.subrange(n as int, len as int));
            assert(prefix@ =~= s@.subrange(0, prefix@.len() as int));
        }
        Some(s.substring_char(n, len))
    } else {
        None
    }
}

/// The decimal digit of value `d`.
pub open spec fn digit(d: nat) -> char {
    ('0' as u32 + d) as char
}

/// `n` in decimal notation.
pub open spec fn decimal(n: nat) -> Seq<char>
    decreases n,
{
    if n < 10 {
        seq![digit(n)]
    } else {
        decimal(n / 10).push(digit(n % 10))
    }
}

/// `n` in decimal notation, with a minus sign where it is negative.
pub open spec fn decimal_int(n: int) -> Seq<char> {
    if n < 0 {
        seq!['-'] + decimal((-n) as nat)
    } else {
        decimal(n as nat)
    }
}

fn digit_str(d: u64) -> (r: &'static str)
    requires
        d < 10,
    ensures
        r@ == seq![digit(d as nat)],
{
    proof {
        reveal_strlit("0");
        reveal_strlit("1");
        reveal_strlit("2");
        reveal_strlit("3");
        reveal_strlit("4");
        reveal_strlit("5");
        reveal_strlit("6");
        reveal_strlit("7");
        reveal_strlit("8");
        reveal_strlit("9");
    }
    match d {
        0 => "0",
        1 => "1",
        2 => "2",
        3 => "3",
        4 => "4",
        5 => "5",
        6 => "6",
        7 => "7",
        8 => "8",
        _ => "9",
    }
}

/// `n` in decimal notation.
pub fn to_decimal(n: u64) -> (r: String)
    ensures
        r@ == decimal(n as nat),
    decreases n,
{
    if n < 10 {
        digit_str(n).to_string()
    } else {
        let mut r: String = to_decimal(n / 10);
        r.append(digit_str(n % 10));
        proof {
            assert(decimal(n as nat) =~= decimal((n / 10) as nat) + seq![digit((n % 10) as nat)]);
        }
        r
    }
}

/// `n` in decimal notation, with a minus sign where it is negative.
pub fn to_decimal_i32(n: i32) -> (r: String)
    ensures
        r@ == decimal_int(n as int),
{
    if n < 0 {
        proof {
            reveal_strlit("-");
        }
        let mut r: String = "-".to_string();
        let magnitude: u64 = (-(n as i64)) as u64;
        let digits: String = to_decimal(magnitude);
        r.append(digits.as_str());
        proof {
            assert("-"@ =~= seq!['-']);
        }
        r
    } else {
        to_decimal(n as u64)
    }
}

proof fn lemma_start_of_trimmed(s: Seq<char>) -> (start: int)
    ensures
        0 <= start <= s.len(),
        trimmed_start(s) == s.skip(start),
        forall|i: int| 0 <= i < start ==> white_space(#[trigger] s[i]),
        start < s.len() ==> !white_space(s[start]),
    decreases s.len(),
{
    if s.len() > 0 && white_space(s[0]) {
        let rest = s.drop_first();
        let start = lemma_start_of_trimmed(rest);
        assert(rest.skip(start) =~= s.skip(start + 1));
        assert forall|i: int| 0 <= i < start + 1 implies white_space(#[trigger] s[i]) by {
            if i > 0 {
                assert(rest[i - 1] == s[i]);
            }
        }
        start + 1
    } else {
        assert(s.skip(0) =~= s);
        0
    }
}

proof fn lemma_end_of_trimmed(s: Seq<char>) -> (end: int)
    ensures
        0 <= end <= s.len(),
        trimmed_end(s) == s.take(end),
        forall|i: int| end <= i < s.len() ==> white_space(#[trigger] s[i]),
        end > 0 ==> !white_space(s[end - 1]),
    decreases s.len(),
{
    if s.len() > 0 && white_space(s.last()) {
        let rest = s.drop_last();
        let end = lemma_end_of_trimmed(rest);
        assert(rest.take(end) =~= s.take(end));
        assert forall|i: int| end <= i < s.len() implies white_space(#[trigger] s[i]) by {
            if i < rest.len() {
                assert(rest[i] == s[i]);
            }
        }
        end
    } else {
        assert(s.take(s.len() as int) =~= s);
        s.len() as int
    }
}

proof fn lemma_end_without_trailing(s: Seq<char>, c: char) -> (end: int)
    ensures
        0 <= end <= s.len(),
        without_trailing(s, c) == s.take(end),
        forall|i: int| end <= i < s.len() ==> #[trigger] s[i] == c,
        end > 0 ==> s[end - 1] != c,
    decreases s.len(),
{
    if s.len() > 0 && s.last() == c {
        let rest = s.drop_last();
        let end = lemma_end_without_trailing(rest, c);
        assert(rest.take(end) =~= s.take(end));
        assert forall|i: int| end <= i < s.len() implies #[trigger] s[i] == c by {
            if i < rest.len() {
                assert(rest[i] == s[i]);
            }
        }
        end
    } else {
        assert(s.take(s.len() as int) =~= s);
        s.len() as int
    }
}

/// White space is what Unicode lists as such: the blanks and line ends of ASCII, and the further
/// spaces and separators.
pub proof fn law_white_space_characters(c: char, b: bool)
    requires
        call_ensures(is_white_space, (c,), b),
    ensures
        b == white_space(c),
        c == ' ' || c == '\t' || c == '\n' || c == '\u{b}' || c == '\u{c}' || c == '\r' ==> b,
        c == '\u{85}' || c == '\u{a0}' || c == '\u{1680}' || c == '\u{2028}' || c == '\u{2029}' || c
            == '\u{202f}' || c == '\u{205f}' || c == '\u{3000}' ==> b,
        '\u{2000}' <= c <= '\u{200a}' ==> b,
        '!' <= c <= '~' ==> !b,
        b && c > '~' ==> c == '\u{85}' || c == '\u{a0}' || c == '\u{1680}' || '\u{2000}' <= c
            <= '\u{200a}' || c == '\u{2028}' || c == '\u{2029}' || c == '\u{202f}' || c
            == '\u{205f}' || c == '\u{3000}',
        b && c < ' ' ==> '\t' <= c <= '\r',
{
}

/// Trimming a text takes out white space alone, and all of it, at both ends: what comes back is a
/// stretch of the text with nothing but white space before and after it, and none at its own ends.
pub proof fn law_trim_takes_white_space_only(s: &str, r: &str)
    requires
        call_ensures(trim, (s,), r),
    ensures
        r@ == trimmed(s@),
        exists|start: int, end: int|
            {
                &&& 0 <= start <= end <= s@.len()
                &&& r@ == #[trigger] s@.subrange(start, end)
                &&& forall|i: int| 0 <= i < start ==> white_space(#[trigger] s@[i])
                &&& forall|i: int| end <= i < s@.len() ==> white_space(#[trigger] s@[i])
                &&& start < end ==> !white_space(s@[start]) && !white_space(s@[end - 1])
            },
{
    let start = lemma_start_of_trimmed(s@);
    let rest = s@.skip(start);
    let kept = lemma_end_of_trimmed(rest);
    let end = start + kept;
    assert(rest.take(kept) =~= s@.subrange(start, end));
    assert forall|i: int| end <= i < s@.len() implies white_space(#[trigger] s@[i]) by {
        assert(rest[i - start] == s@[i]);
    }
    if start < end {
        assert(rest[kept - 1] == s@[end - 1]);
    }
}

/// Trimming the end of a text takes out white space alone, and all of it, at the end; the start
/// stays as it is.
pub proof fn law_trim_end_takes_white_space_only(s: &str, r: &str)
    requires
        call_ensures(trim_end, (s,), r),
    ensures
        r@ == trimmed_end(s@),
        r@.len() <= s@.len(),
        r@ == s@.take(r@.len() as int),
        forall|i: int| r@.len() <= i < s@.len() ==> white_space(#[trigger] s@[i]),
        r@.len() > 0 ==> !white_space(r@.last()),
{
    let end = lemma_end_of_trimmed(s@);
}

/// Trimming a character off the end of a text takes out that character alone, and all of it.
pub proof fn law_trim_end_char_takes_that_character_only(s: &str, c: char, r: &str)
    requires
        call_ensures(trim_end_char, (s, c), r),
    ensures
        r@ == without_trailing(s@, c),
        r@.len() <= s@.len(),
        r@ == s@.take(r@.len() as int),
        forall|i: int| r@.len() <= i < s@.len() ==> #[trigger] s@[i] == c,
        r@.len() > 0 ==> r@.last() != c,
{
    let end = lemma_end_without_trailing(s@, c);
}

/// The first characters of a text are its start, as many as asked for or as there are.
pub proof fn law_take_chars_is_the_start(s: &str, n: usize, r: &str)
    requires
        call_ensures(take_chars, (s, n), r),
    ensures
        s@.len() <= n ==> r@ == s@,
        s@.len() > n ==> r@.len() == n && r@ == s@.take(n as int),
        r@ == prefix_of_at_most(s@, n as int),
{
}

/// A prefix is stripped exactly where the text is that prefix and more, and what comes back is the
/// rest of the text, unchanged.
pub proof fn law_strip_prefix_leaves_the_rest(s: &str, prefix: &str, rest: Seq<char>, r: Option<&str>)
    requires
        call_ensures(strip_prefix, (s, prefix), r),
    ensures
        r.deep_view() == Some(rest) <==> s@ == prefix@ + rest,
{
    if r.deep_view() == Some(rest) {
        assert(s@ =~= prefix@ + rest);
    }
    if s@ == prefix@ + rest {
        assert(prefix@ =~= s@.subrange(0, prefix@.len() as int));
        assert(s@.skip(prefix@.len() as int) =~= rest);
    }
}

/// The number that decimal digits stand for.
pub open spec fn decimal_value(digits: Seq<char>) -> int
    decreases digits.len(),
{
    if digits.len() == 0 {
        0
    } else {
        10 * decimal_value(digits.drop_last()) + (digits.last() as int - '0' as int)
    }
}

/// Any number in decimal notation reads back as itself: it is all digits, and has no leading zero.
pub proof fn law_decimal_of_any_number(n: nat)
    ensures
        decimal_value(decimal(n)) == n,
        decimal(n).len() > 0,
        forall|i: int| 0 <= i < decimal(n).len() ==> '0' <= #[trigger] decimal(n)[i] <= '9',
        n > 0 ==> decimal(n)[0] != '0',
        n == 0 ==> decimal(n) == seq!['0'],
    decreases n,
{
    let all = decimal(n);
    if n < 10 {
        assert(all.drop_last() =~= Seq::<char>::empty());
        assert(decimal_value(all.drop_last()) == 0);
        assert(all.last() == digit(n));
    } else {
        law_decimal_of_any_number(n / 10);
        let fore = decimal(n / 10);
        assert(all.drop_last() =~= fore);
        assert(all.last() == digit(n % 10));
        assert forall|i: int| 0 <= i < all.len() implies '0' <= #[trigger] all[i] <= '9' by {
            if i < fore.len() {
                assert(all[i] == fore[i]);
            }
        }
        assert(all[0] == fore[0]);
    }
}

/// A number in decimal notation reads back as itself: it is all digits, and has no leading zero.
pub proof fn law_decimal_reads_back(n: u64, r: String)
    requires
        call_ensures(to_decimal, (n,), r),
    ensures
        r@ == decimal(n as nat),
        decimal_value(r@) == n,
        r@.len() > 0,
        forall|i: int| 0 <= i < r@.len() ==> '0' <= #[trigger] r@[i] <= '9',
        n > 0 ==> r@[0] != '0',
        n == 0 ==> r@ == seq!['0'],
{
    law_decimal_of_any_number(n as nat);
}

/// A negative number is a minus sign and its magnitude; any other is its magnitude alone.
pub proof fn law_sign_comes_first(n: i32, r: String)
    requires
        call_ensures(to_decimal_i32, (n,), r),
    ensures
        r@ == decimal_int(n as int),
        r@.len() > 0,
        n < 0 ==> r@[0] == '-' && r@.skip(1) == decimal(-n as nat) && decimal_value(r@.skip(1)) == -n,
        n >= 0 ==> r@ == decimal(n as nat) && decimal_value(r@) == n,
{
    if n < 0 {
        law_decimal_of_any_number(-n as nat);
        assert(r@.skip(1) =~= decimal(-n as nat));
    } else {
        law_decimal_of_any_number(n as nat);
    }
}

} // verus!
