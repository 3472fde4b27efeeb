//! Character-level text utilities: Unicode white space, word splitting,
//! trimming and decimal numbers.
use vstd::prelude::*;
use vstd::utf8::{encode_scalar, encode_utf8};

verus! {

/// The Unicode `White_Space` property (PropList.txt): the characters that
/// `char::is_whitespace` accepts.
pub open spec fn is_white_space(c: char) -> bool {
    let n = c as u32;
    ||| 0x9 <= n <= 0xd
    ||| n == 0x20
    ||| n == 0x85
    ||| n == 0xa0
    ||| n == 0x1680
    ||| 0x2000 <= n <= 0x200a
    ||| n == 0x2028
    ||| n == 0x2029
    ||| n == 0x202f
    ||| n == 0x205f
    ||| n == 0x3000
}

/// Whether `c` is a Unicode white-space character.
pub fn is_whitespace(c: char) -> (r: bool)
    ensures
        r == is_white_space(c),
{
    let n = c as u32;
    (0x9 <= n && n <= 0xd) || n == 0x20 || n == 0x85 || n == 0xa0 || n == 0x1680 || (0x2000 <= n
        && n <= 0x200a) || n == 0x2028 || n == 0x2029 || n == 0x202f || n == 0x205f || n == 0x3000
}

/// The characters of a string slice, in order.
pub fn chars_of(s: &str) -> (v: Vec<char>)
    ensures
        v@ == s@,
{
    let mut v: Vec<char> = Vec::new();
    for c in it: s.chars()
        invariant
            v@ == it.seq().take(it.index() as int),
            it.seq() == s@,
    {
        v.push(c);
    }
    v
}

/// Appends the characters of `s` to `out`.
pub fn append_str(out: &mut Vec<char>, s: &str)
    ensures
        final(out)@ == old(out)@ + s@,
{
    let tail = chars_of(s);
    append_chars(out, &tail);
}

/// Appends the characters `tail` to `out`.
pub fn append_chars(out: &mut Vec<char>, tail: &Vec<char>)
    ensures
        final(out)@ == old(out)@ + tail@,
{
    let mut k: usize = 0;
    let ghost start = out@;
    while k < tail.len()
        invariant
            k <= tail@.len(),
            out@ == start + tail@.take(k as int),
        decreases tail@.len() - k,
    {
        out.push(tail[k]);
        k = k + 1;
        assert(out@ =~= start + tail@.take(k as int));
    }
    assert(tail@.take(tail@.len() as int) =~= tail@);
}

/// `String::push`: appends `c`.
#[verifier::external_body]
pub(crate) fn string_push(s: &mut String, c: char)
    ensures
        final(s)@ == old(s)@.push(c),
{
    s.push(c)
}

/// `String::pop`: removes and returns the last character, if any.
#[verifier::external_body]
pub(crate) fn string_pop(s: &mut String) -> (r: Option<char>)
    ensures
        old(s)@.len() == 0 ==> r is None && final(s)@ == old(s)@,
        old(s)@.len() > 0 ==> r == Some(old(s)@.last()) && final(s)@ == old(s)@.drop_last(),
{
    s.pop()
}

/// `s` begins with `prefix` (`str::starts_with`).
pub open spec fn starts_with(s: Seq<char>, prefix: Seq<char>) -> bool {
    prefix.len() <= s.len() && s.take(prefix.len() as int) == prefix
}

/// Whether `v` begins with `prefix`.
pub fn chars_start_with(v: &Vec<char>, prefix: &Vec<char>) -> (r: bool)
    ensures
        r == starts_with(v@, prefix@),
{
    if prefix.len() > v.len() {
        return false;
    }
    let mut k: usize = 0;
    while k < prefix.len()
        invariant
            prefix@.len() <= v@.len(),
            k <= prefix@.len(),
            forall|i: int| 0 <= i < k ==> v@[i] == prefix@[i],
        decreases prefix@.len() - k,
    {
        if v[k] != prefix[k] {
            assert(v@.take(prefix@.len() as int)[k as int] != prefix@[k as int]);
            return false;
        }
        k = k + 1;
    }
    assert(v@.take(prefix@.len() as int) =~= prefix@);
    true
}

/// `String::from_iter` over characters: the string made of `v` in order.
#[verifier::external_body]
pub(crate) fn string_from_chars(v: &Vec<char>) -> (s: String)
    ensures
        s@ == v@,
{
    v.iter().collect()
}


/// Length of the run of non-white-space characters at the start of `s`.
pub open spec fn word_len(s: Seq<char>) -> nat
    decreases s.len(),
{
    if s.len() == 0 || is_white_space(s[0]) {
        0
    } else {
        1 + word_len(s.drop_first())
    }
}

/// The leading word fits in `s`, and is non-empty where `s` starts with one.
pub proof fn lemma_word_len_bounds(s: Seq<char>)
    ensures
        word_len(s) <= s.len(),
        s.len() > 0 && !is_white_space(s[0]) ==> word_len(s) >= 1,
    decreases s.len(),
{
    if s.len() > 0 && !is_white_space(s[0]) {
        lemma_word_len_bounds(s.drop_first());
    }
}

/// The leading word holds no white space.
pub proof fn lemma_word_len_chars(s: Seq<char>)
    ensures
        forall|i: int| 0 <= i < word_len(s) ==> !is_white_space(#[trigger] s[i]),
    decreases s.len(),
{
    if s.len() > 0 && !is_white_space(s[0]) {
        let t = s.drop_first();
        lemma_word_len_chars(t);
        lemma_word_len_bounds(t);
        assert forall|i: int| 0 <= i < word_len(s) implies !is_white_space(#[trigger] s[i]) by {
            if i > 0 {
                assert(s[i] == t[i - 1]);
            }
        }
    }
}

/// The words of `s`: its maximal runs of non-white-space characters, in
/// order (what `str::split_whitespace` yields).
pub open spec fn words(s: Seq<char>) -> Seq<Seq<char>>
    decreases s.len(),
{
    if s.len() == 0 {
        Seq::empty()
    } else if is_white_space(s[0]) {
        words(s.drop_first())
    } else {
        let n = word_len(s);
        proof {
            lemma_word_len_bounds(s);
        }
        seq![s.take(n as int)] + words(s.skip(n as int))
    }
}

/// `w` is a word: non-empty, without white space.
pub open spec fn is_word(w: Seq<char>) -> bool {
    w.len() > 0 && forall|i: int| 0 <= i < w.len() ==> !is_white_space(#[trigger] w[i])
}

/// Every word of `s` is a word.
pub proof fn lemma_words_are_words(s: Seq<char>)
    ensures
        forall|i: int| 0 <= i < words(s).len() ==> is_word(#[trigger] words(s)[i]),
    decreases s.len(),
{
    if s.len() > 0 {
        if is_white_space(s[0]) {
            lemma_words_are_words(s.drop_first());
            assert(words(s) == words(s.drop_first()));
        } else {
            let n = word_len(s);
            lemma_word_len_bounds(s);
            lemma_word_len_chars(s);
            let w = s.take(n as int);
            assert forall|i: int| 0 <= i < w.len() implies !is_white_space(#[trigger] w[i]) by {
                assert(w[i] == s[i]);
            }
            lemma_words_are_words(s.skip(n as int));
            let r = words(s);
            assert(r == seq![w] + words(s.skip(n as int)));
            assert forall|i: int| 0 <= i < r.len() implies is_word(#[trigger] r[i]) by {
                if i == 0 {
                    assert(r[0] == w);
                } else {
                    assert(r[i] == words(s.skip(n as int))[i - 1]);
                }
            }
        }
    }
}

/// The word at the start of `s` ends at `k`.
pub proof fn lemma_word_len(s: Seq<char>, k: int)
    requires
        0 <= k <= s.len(),
        forall|i: int| 0 <= i < k ==> !is_white_space(#[trigger] s[i]),
        k == s.len() || is_white_space(s[k]),
    ensures
        word_len(s) == k,
    decreases k,
{
    if k > 0 {
        assert(!is_white_space(s[0]));
        let t = s.drop_first();
        assert forall|i: int| 0 <= i < k - 1 implies !is_white_space(#[trigger] t[i]) by {
            assert(t[i] == s[i + 1]);
        }
        if k < s.len() {
            assert(t[k - 1] == s[k]);
        }
        lemma_word_len(t, k - 1);
    }
}

/// Skipping a white-space character leaves the words unchanged.
pub proof fn lemma_words_skip_space(s: Seq<char>, i: int)
    requires
        0 <= i < s.len(),
        is_white_space(s[i]),
    ensures
        words(s.skip(i)) == words(s.skip(i + 1)),
{
    let t = s.skip(i);
    assert(t[0] == s[i]);
    assert(t.drop_first() =~= s.skip(i + 1));
}

/// A word of `s` that starts at `i` and ends at `j`.
pub proof fn lemma_words_take_word(s: Seq<char>, i: int, j: int)
    requires
        0 <= i < j <= s.len(),
        forall|k: int| i <= k < j ==> !is_white_space(#[trigger] s[k]),
        j == s.len() || is_white_space(s[j]),
    ensures
        words(s.skip(i)) == seq![s.subrange(i, j)] + words(s.skip(j)),
{
    let t = s.skip(i);
    assert forall|k: int| 0 <= k < j - i implies !is_white_space(#[trigger] t[k]) by {
        assert(t[k] == s[i + k]);
    }
    if j < s.len() {
        assert(t[j - i] == s[j]);
    }
    lemma_word_len(t, j - i);
    assert(t[0] == s[i]);
    assert(t.take(j - i) =~= s.subrange(i, j));
    assert(t.skip(j - i) =~= s.skip(j));
}

/// The words of `v`, each as its characters (`str::split_whitespace`).
pub fn split_words(v: &Vec<char>) -> (r: Vec<Vec<char>>)
    ensures
        r@.len() == words(v@).len(),
        forall|k: int| 0 <= k < r@.len() ==> (#[trigger] r@[k])@ == words(v@)[k],
{
    let n = v.len();
    let mut r: Vec<Vec<char>> = Vec::new();
    let ghost mut done: Seq<Seq<char>> = Seq::empty();
    let mut i: usize = 0;
    assert(v@.skip(0) =~= v@);
    while i < n
        invariant
            n == v@.len(),
            i <= n,
            r@.len() == done.len(),
            forall|k: int| 0 <= k < r@.len() ==> (#[trigger] r@[k])@ == done[k],
            words(v@) == done + words(v@.skip(i as int)),
        decreases n - i,
    {
        if is_whitespace(v[i]) {
            proof {
                lemma_words_skip_space(v@, i as int);
            }
            i = i + 1;
        } else {
            let mut w: Vec<char> = Vec::new();
            let mut j: usize = i;
            while j < n && !is_whitespace(v[j])
                invariant
                    n == v@.len(),
                    i <= j <= n,
                    w@ == v@.subrange(i as int, j as int),
                    forall|k: int| i <= k < j ==> !is_white_space(#[trigger] v@[k]),
                decreases n - j,
            {
                w.push(v[j]);
                j = j + 1;
            }
            proof {
                lemma_words_take_word(v@, i as int, j as int);
                done = done.push(w@);
                assert(words(v@) == done + words(v@.skip(j as int)));
            }
            r.push(w);
            i = j;
        }
    }
    proof {
        assert(v@.skip(n as int) =~= Seq::<char>::empty());
        assert(words(v@) =~= done);
    }
    r
}


/// The ASCII digit character for `d` (`0 <= d < 10`).
pub open spec fn digit_char(d: int) -> char {
    (48 + d) as char
}

/// `c` is an ASCII decimal digit.
pub open spec fn is_digit(c: char) -> bool {
    48 <= (c as u32) <= 57
}

/// The value of the decimal digit `c`.
pub open spec fn digit_value(c: char) -> int {
    (c as u32) - 48
}

/// The decimal representation of `n`, without leading zeros.
pub open spec fn decimal(n: nat) -> Seq<char>
    decreases n,
{
    if n < 10 {
        seq![digit_char(n as int)]
    } else {
        decimal(n / 10).push(digit_char((n % 10) as int))
    }
}

/// The decimal representation of `i`, with a leading `-` when negative (as
/// `Display` writes integers).
pub open spec fn int_text(i: int) -> Seq<char> {
    if i < 0 {
        seq!['-'] + decimal((-i) as nat)
    } else {
        decimal(i as nat)
    }
}

/// Every character of `s` is a decimal digit.
pub open spec fn all_digits(s: Seq<char>) -> bool {
    forall|i: int| 0 <= i < s.len() ==> is_digit(#[trigger] s[i])
}

/// The number that the digits `s` spell (0 for no digits).
pub open spec fn digits_value(s: Seq<char>) -> int
    decreases s.len(),
{
    if s.len() == 0 {
        0
    } else {
        digits_value(s.drop_last()) * 10 + digit_value(s.last())
    }
}

/// `s` without its leading sign character, if it has one.
pub open spec fn unsigned_part(s: Seq<char>) -> Seq<char> {
    if s.len() > 0 && (s[0] == '-' || s[0] == '+') {
        s.drop_first()
    } else {
        s
    }
}

/// The integer that `s` spells as `i32::from_str` reads it: an optional `+`
/// or `-`, then one or more decimal digits.
pub open spec fn parse_int(s: Seq<char>) -> Option<int> {
    if s.len() == 0 {
        None
    } else {
        let neg = s[0] == '-';
        let body = unsigned_part(s);
        if body.len() == 0 || !all_digits(body) {
            None
        } else if neg {
            Some(-digits_value(body))
        } else {
            Some(digits_value(body))
        }
    }
}

/// What `i32::from_str` gives for `s`: the integer it spells when that fits
/// in an `i32`, and `None` otherwise.
pub open spec fn parse_i32(s: Seq<char>) -> Option<i32> {
    match parse_int(s) {
        Some(v) => if i32::MIN <= v <= i32::MAX {
            Some(v as i32)
        } else {
            None
        },
        None => None,
    }
}

/// The digit character of `d` is a digit of value `d`.
pub proof fn lemma_digit_char(d: int)
    requires
        0 <= d < 10,
    ensures
        is_digit(digit_char(d)),
        digit_value(digit_char(d)) == d,
        !is_white_space(digit_char(d)),
{
}

/// Digits spell a non-negative number.
pub proof fn lemma_digits_value_nonneg(s: Seq<char>)
    requires
        all_digits(s),
    ensures
        digits_value(s) >= 0,
    decreases s.len(),
{
    if s.len() > 0 {
        lemma_digits_value_nonneg(s.drop_last());
    }
}

/// More digits spell a number no smaller.
pub proof fn lemma_digits_value_prefix(s: Seq<char>, k: int)
    requires
        all_digits(s),
        0 <= k <= s.len(),
    ensures
        digits_value(s.take(k)) <= digits_value(s),
    decreases s.len(),
{
    if k < s.len() {
        assert(s.drop_last().take(k) =~= s.take(k));
        lemma_digits_value_prefix(s.drop_last(), k);
        lemma_digits_value_nonneg(s.drop_last());
    } else {
        assert(s.take(k) =~= s);
    }
}

/// The decimal representation of `n` is a non-empty run of digits that
/// spells `n`.
pub proof fn lemma_decimal(n: nat)
    ensures
        decimal(n).len() > 0,
        all_digits(decimal(n)),
        digits_value(decimal(n)) == n,
        is_word(decimal(n)),
    decreases n,
{
    if n < 10 {
        lemma_digit_char(n as int);
        assert(decimal(n).drop_last() =~= Seq::<char>::empty());
        assert(digits_value(Seq::<char>::empty()) == 0);
    } else {
        lemma_decimal(n / 10);
        lemma_digit_char((n % 10) as int);
        assert(decimal(n).drop_last() =~= decimal(n / 10));
        assert(decimal(n).last() == digit_char((n % 10) as int));
        assert((n / 10) * 10 + n % 10 == n);
        assert(digits_value(decimal(n)) == digits_value(decimal(n / 10)) * 10 + (n % 10));
        assert forall|i: int| 0 <= i < decimal(n).len() implies is_digit(#[trigger] decimal(n)[i]) by {
            if i < decimal(n).len() - 1 {
                assert(decimal(n)[i] == decimal(n / 10)[i]);
            }
        }
    }
}

/// Reading back the decimal text of any integer gives that integer, and
/// the text is a word.
pub proof fn lemma_int_text_reads_back(i: int)
    ensures
        parse_int(int_text(i)) == Some(i),
        is_word(int_text(i)),
{
    if i < 0 {
        let d = decimal((-i) as nat);
        lemma_decimal((-i) as nat);
        let t = int_text(i);
        assert(t.drop_first() =~= d);
        assert(t[0] == '-');
        assert forall|k: int| 0 <= k < t.len() implies !is_white_space(#[trigger] t[k]) by {
            if k > 0 {
                assert(t[k] == d[k - 1]);
            }
        }
    } else {
        lemma_decimal(i as nat);
        let d = decimal(i as nat);
        assert(is_digit(d[0]));
    }
}

/// Reading back the text of an `i32` gives the same `i32`.
pub proof fn lemma_parse_int_text(i: i32)
    ensures
        parse_i32(int_text(i as int)) == Some(i),
        is_word(int_text(i as int)),
{
    if i < 0 {
        let d = decimal((-i) as nat);
        lemma_decimal((-i) as nat);
        let t = int_text(i as int);
        assert(t.drop_first() =~= d);
        assert(t[0] == '-');
        assert forall|k: int| 0 <= k < t.len() implies !is_white_space(#[trigger] t[k]) by {
            if k > 0 {
                assert(t[k] == d[k - 1]);
            }
        }
    } else {
        lemma_decimal(i as nat);
        let d = decimal(i as nat);
        assert(is_digit(d[0]));
    }
}

/// Appends the decimal representation of `n` to `out`.
pub fn push_decimal(n: u64, out: &mut Vec<char>)
    ensures
        final(out)@ == old(out)@ + decimal(n as nat),
    decreases n,
{
    if n >= 10 {
        push_decimal(n / 10, out);
    }
    let d = (n % 10) as u8;
    out.push((48u8 + d) as char);
}

/// Appends the text of the integer `i` to `out`.
pub fn push_int(i: i64, out: &mut Vec<char>)
    ensures
        final(out)@ == old(out)@ + int_text(i as int),
{
    if i < 0 {
        out.push('-');
        let magnitude: u64 = ((-(i + 1)) as u64) + 1;
        push_decimal(magnitude, out);
        assert(final(out)@ =~= old(out)@ + int_text(i as int));
    } else {
        push_decimal(i as u64, out);
    }
}

/// `i32::from_str` on the characters `s`.
pub fn parse_i32_chars(s: &Vec<char>) -> (r: Option<i32>)
    ensures
        r == parse_i32(s@),
{
    let n = s.len();
    if n == 0 {
        return None;
    }
    let neg = s[0] == '-';
    let start: usize = if s[0] == '-' || s[0] == '+' {
        1
    } else {
        0
    };
    if start == n {
        return None;
    }
    let ghost body = s@.subrange(start as int, n as int);
    assert(body =~= unsigned_part(s@));
    let mut acc: u64 = 0;
    let mut k: usize = start;
    while k < n
        invariant
            n == s@.len(),
            start <= k <= n,
            body == s@.subrange(start as int, n as int),
            body == unsigned_part(s@),
            n > 0,
            neg == (s@[0] == '-'),
            all_digits(body.take(k - start)),
            acc == digits_value(body.take(k - start)),
            acc <= 0x8000_0000,
        decreases n - k,
    {
        let c = s[k];
        let cv = c as u32;
        if cv < 48 || cv > 57 {
            assert(body[k - start] == c);
            assert(!is_digit(body[k - start]));
            assert(!all_digits(body));
            assert(parse_int(s@) is None);
            return None;
        }
        let ghost prev = body.take(k - start);
        let ghost next = body.take(k - start + 1);
        proof {
            assert(next.drop_last() =~= prev);
            assert(next.last() == c);
            assert forall|i: int| 0 <= i < next.len() implies is_digit(#[trigger] next[i]) by {
                if i < prev.len() {
                    assert(next[i] == prev[i]);
                }
            }
        }
        acc = acc * 10 + (cv - 48) as u64;
        k = k + 1;
        if acc > 0x8000_0000 {
            proof {
                if all_digits(body) {
                    lemma_digits_value_prefix(body, k - start);
                    assert(digits_value(body) > 0x8000_0000);
                }
            }
            return None;
        }
    }
    proof {
        assert(body.take(n - start) =~= body);
    }
    if neg {
        Some((0 - (acc as i64)) as i32)
    } else if acc > 0x7fff_ffff {
        None
    } else {
        Some(acc as i32)
    }
}


/// The words of `ws`, each followed by one space, run together (what
/// collecting `word + " "` over them gives).
pub open spec fn spaced(ws: Seq<Seq<char>>) -> Seq<char>
    decreases ws.len(),
{
    if ws.len() == 0 {
        Seq::empty()
    } else {
        ws[0] + seq![' '] + spaced(ws.drop_first())
    }
}

/// Spaced words are the words, each with one space after it, run together.
pub proof fn lemma_spaced_flatten(ws: Seq<Seq<char>>)
    ensures
        spaced(ws) == ws.map_values(|w: Seq<char>| w.push(' ')).flatten(),
    decreases ws.len(),
{
    let m = ws.map_values(|w: Seq<char>| w.push(' '));
    if ws.len() > 0 {
        lemma_spaced_flatten(ws.drop_first());
        assert(m.drop_first() =~= ws.drop_first().map_values(|w: Seq<char>| w.push(' ')));
        assert(m.first() =~= ws[0] + seq![' ']);
        assert(spaced(ws) =~= m.flatten());
    } else {
        assert(m =~= Seq::<Seq<char>>::empty());
    }
}

/// A word followed by white space splits off as the first word.
pub proof fn lemma_words_word_then_space(w: Seq<char>, rest: Seq<char>)
    requires
        is_word(w),
        rest.len() > 0,
        is_white_space(rest[0]),
    ensures
        words(w + rest) == seq![w] + words(rest.drop_first()),
{
    let s = w + rest;
    let k = w.len() as int;
    assert forall|i: int| 0 <= i < k implies !is_white_space(#[trigger] s[i]) by {
        assert(s[i] == w[i]);
    }
    assert(s[k] == rest[0]);
    lemma_words_take_word(s, 0, k);
    assert(s.skip(0) =~= s);
    assert(s.subrange(0, k) =~= w);
    lemma_words_skip_space(s, k);
    assert(s.skip(k + 1) =~= rest.drop_first());
}

/// Splitting spaced words gives the words back.
pub proof fn lemma_words_spaced(ws: Seq<Seq<char>>)
    requires
        forall|i: int| 0 <= i < ws.len() ==> is_word(#[trigger] ws[i]),
    ensures
        words(spaced(ws)) == ws,
    decreases ws.len(),
{
    if ws.len() == 0 {
        assert(words(Seq::<char>::empty()) == Seq::<Seq<char>>::empty());
    } else {
        let rest = ws.drop_first();
        assert forall|i: int| 0 <= i < rest.len() implies is_word(#[trigger] rest[i]) by {
            assert(rest[i] == ws[i + 1]);
        }
        lemma_words_spaced(rest);
        assert(is_word(ws[0]));
        let tail = seq![' '] + spaced(rest);
        assert(tail[0] == ' ');
        assert(is_white_space(tail[0]));
        lemma_words_word_then_space(ws[0], tail);
        assert(tail.drop_first() =~= spaced(rest));
        assert(spaced(ws) =~= ws[0] + tail);
        assert(seq![ws[0]] + rest =~= ws);
    }
}

/// A single word splits into itself.
pub proof fn lemma_words_single(w: Seq<char>)
    requires
        is_word(w),
    ensures
        words(w) == seq![w],
{
    lemma_word_len(w, w.len() as int);
    assert(w.take(w.len() as int) =~= w);
    assert(w.skip(w.len() as int) =~= Seq::<char>::empty());
    assert(words(Seq::<char>::empty()) == Seq::<Seq<char>>::empty());
    assert(seq![w] + Seq::<Seq<char>>::empty() =~= seq![w]);
}

/// Appends the words `ws[from..]` to `out`, each followed by one space.
pub fn push_spaced(ws: &Vec<Vec<char>>, from: usize, out: &mut Vec<char>)
    requires
        from <= ws@.len(),
    ensures
        final(out)@ == old(out)@ + spaced(ws@.skip(from as int).map_values(|w: Vec<char>| w@)),
    decreases ws@.len() - from,
{
    let ghost rest = ws@.skip(from as int).map_values(|w: Vec<char>| w@);
    if from < ws.len() {
        let w = &ws[from];
        let mut k: usize = 0;
        let ghost start = out@;
        while k < w.len()
            invariant
                k <= w@.len(),
                out@ == start + w@.take(k as int),
            decreases w@.len() - k,
        {
            out.push(w[k]);
            k = k + 1;
            assert(out@ =~= start + w@.take(k as int));
        }
        out.push(' ');
        let ghost mid = out@;
        push_spaced(ws, from + 1, out);
        proof {
            let next = ws@.skip(from + 1).map_values(|w: Vec<char>| w@);
            assert(rest.drop_first() =~= next);
            assert(rest[0] == w@);
            assert(w@.take(w@.len() as int) =~= w@);
            assert(out@ =~= old(out)@ + spaced(rest));
        }
    } else {
        assert(rest =~= Seq::<Seq<char>>::empty());
        assert(out@ =~= old(out)@ + spaced(rest));
    }
}

/// `s` without leading white space.
pub open spec fn trim_start(s: Seq<char>) -> Seq<char>
    decreases s.len(),
{
    if s.len() > 0 && is_white_space(s[0]) {
        trim_start(s.drop_first())
    } else {
        s
    }
}

/// `s` without trailing white space.
pub open spec fn trim_end(s: Seq<char>) -> Seq<char>
    decreases s.len(),
{
    if s.len() > 0 && is_white_space(s.last()) {
        trim_end(s.drop_last())
    } else {
        s
    }
}

/// `s` without leading and trailing white space (`str::trim`).
pub open spec fn trim(s: Seq<char>) -> Seq<char> {
    trim_end(trim_start(s))
}

/// Trimming the start drops the first `k` characters, all white space.
proof fn lemma_trim_start_at(s: Seq<char>, k: int)
    requires
        0 <= k <= s.len(),
        forall|i: int| 0 <= i < k ==> is_white_space(#[trigger] s[i]),
        k == s.len() || !is_white_space(s[k]),
    ensures
        trim_start(s) == s.skip(k),
    decreases k,
{
    if k == 0 {
        assert(s.skip(0) =~= s);
    } else {
        assert(is_white_space(s[0]));
        let t = s.drop_first();
        assert forall|i: int| 0 <= i < k - 1 implies is_white_space(#[trigger] t[i]) by {
            assert(t[i] == s[i + 1]);
        }
        if k < s.len() {
            assert(t[k - 1] == s[k]);
        }
        lemma_trim_start_at(t, k - 1);
        assert(t.skip(k - 1) =~= s.skip(k));
    }
}

/// Trimming the end keeps the first `k` characters, the rest white space.
proof fn lemma_trim_end_at(s: Seq<char>, k: int)
    requires
        0 <= k <= s.len(),
        forall|i: int| k <= i < s.len() ==> is_white_space(#[trigger] s[i]),
        k == 0 || !is_white_space(s[k - 1]),
    ensures
        trim_end(s) == s.take(k),
    decreases s.len() - k,
{
    if k == s.len() {
        assert(s.take(k) =~= s);
    } else {
        assert(is_white_space(s.last()));
        let t = s.drop_last();
        assert forall|i: int| k <= i < t.len() implies is_white_space(#[trigger] t[i]) by {
            assert(t[i] == s[i]);
        }
        if k > 0 {
            assert(t[k - 1] == s[k - 1]);
        }
        lemma_trim_end_at(t, k);
        assert(t.take(k) =~= s.take(k));
    }
}

/// The characters of `v` without leading and trailing white space
/// (`str::trim`).
pub fn trim_chars(v: &Vec<char>) -> (r: Vec<char>)
    ensures
        r@ == trim(v@),
{
    let n = v.len();
    let mut a: usize = 0;
    while a < n && is_whitespace(v[a])
        invariant
            n == v@.len(),
            a <= n,
            forall|i: int| 0 <= i < a ==> is_white_space(#[trigger] v@[i]),
        decreases n - a,
    {
        a = a + 1;
    }
    proof {
        lemma_trim_start_at(v@, a as int);
    }
    let ghost t = v@.skip(a as int);
    let mut b: usize = n;
    while b > a && is_whitespace(v[b - 1])
        invariant
            n == v@.len(),
            a <= b <= n,
            t == v@.skip(a as int),
            forall|i: int| b <= i < n ==> is_white_space(#[trigger] v@[i]),
        decreases b - a,
    {
        b = b - 1;
    }
    proof {
        assert forall|i: int| b - a <= i < t.len() implies is_white_space(#[trigger] t[i]) by {
            assert(t[i] == v@[i + a]);
        }
        if b > a {
            assert(t[b - a - 1] == v@[b - 1]);
        }
        lemma_trim_end_at(t, b - a);
    }
    let mut r: Vec<char> = Vec::new();
    let mut k: usize = a;
    while k < b
        invariant
            a <= k <= b <= n,
            n == v@.len(),
            r@ == v@.subrange(a as int, k as int),
        decreases b - k,
    {
        r.push(v[k]);
        k = k + 1;
    }
    assert(r@ =~= t.take(b - a));
    r
}

/// Whether the two character sequences are equal.
pub fn chars_equal(a: &Vec<char>, b: &Vec<char>) -> (r: bool)
    ensures
        r == (a@ == b@),
{
    if a.len() != b.len() {
        return false;
    }
    let mut k: usize = 0;
    while k < a.len()
        invariant
            a@.len() == b@.len(),
            k <= a@.len(),
            forall|i: int| 0 <= i < k ==> a@[i] == b@[i],
        decreases a@.len() - k,
    {
        if a[k] != b[k] {
            return false;
        }
        k = k + 1;
    }
    assert(a@ =~= b@);
    true
}

/// Whether the characters of `v` equal those of the string `s`.
pub fn chars_equal_str(v: &Vec<char>, s: &str) -> (r: bool)
    ensures
        r == (v@ == s@),
{
    let w = chars_of(s);
    chars_equal(v, &w)
}


/// The value of a string result: its text, or the text of its error.
pub open spec fn text_result(r: Result<String, String>) -> Result<Seq<char>, Seq<char>> {
    match r {
        Ok(s) => Ok(s@),
        Err(e) => Err(e@),
    }
}

/// The pieces of `s` between occurrences of `sep` (what `str::split` with a
/// character separator yields): one more piece than there are separators.
pub open spec fn split_on(s: Seq<char>, sep: char) -> Seq<Seq<char>>
    decreases s.len(),
{
    if s.len() == 0 {
        seq![Seq::empty()]
    } else {
        let rest = split_on(s.drop_first(), sep);
        if s[0] == sep {
            seq![Seq::empty()] + rest
        } else {
            rest.update(0, seq![s[0]] + rest[0])
        }
    }
}

/// A text without the separator is a single piece.
pub proof fn lemma_split_on_without_separator(s: Seq<char>, sep: char)
    requires
        !s.contains(sep),
    ensures
        split_on(s, sep) == seq![s],
    decreases s.len(),
{
    if s.len() == 0 {
        assert(s =~= Seq::<char>::empty());
    } else {
        let t = s.drop_first();
        assert(!t.contains(sep)) by {
            if t.contains(sep) {
                let i = choose|i: int| 0 <= i < t.len() && t[i] == sep;
                assert(s[i + 1] == sep);
            }
        }
        assert(s[0] != sep) by {
            if s[0] == sep {
                assert(s.contains(sep));
            }
        }
        lemma_split_on_without_separator(t, sep);
        assert(seq![s[0]] + t =~= s);
        assert(split_on(s, sep) =~= seq![s]);
    }
}

/// Splitting at `sep` loses and adds nothing: joining the pieces with
/// `sep` gives the text back, and no piece holds `sep`.
pub proof fn lemma_split_on_join(s: Seq<char>, sep: char)
    ensures
        joined(split_on(s, sep), seq![sep]) == s,
        forall|i: int, j: int|
            0 <= i < split_on(s, sep).len() && 0 <= j < split_on(s, sep)[i].len() ==> (#[trigger] split_on(s, sep)[i][j]) != sep,
    decreases s.len(),
{
    let ps = split_on(s, sep);
    if s.len() == 0 {
        assert(ps == seq![Seq::<char>::empty()]);
    } else {
        let t = s.drop_first();
        let rest = split_on(t, sep);
        lemma_split_on_join(t, sep);
        lemma_split_on_len(t, sep);
        if s[0] == sep {
            assert(ps == seq![Seq::<char>::empty()] + rest);
            assert(ps.drop_first() =~= rest);
            assert(joined(ps, seq![sep]) =~= Seq::<char>::empty() + seq![sep] + joined(rest, seq![sep]));
            assert(seq![sep] + t =~= s);
            assert forall|i: int, j: int| 0 <= i < ps.len() && 0 <= j < ps[i].len() implies (#[trigger] ps[i][j]) != sep by {
                assert(ps[i] == rest[i - 1]);
            }
        } else {
            let first = seq![s[0]] + rest[0];
            assert(ps == rest.update(0, first));
            if rest.len() == 1 {
                assert(joined(ps, seq![sep]) == first);
                assert(joined(rest, seq![sep]) == rest[0]);
                assert(first =~= s);
            } else {
                assert(ps.drop_first() =~= rest.drop_first());
                assert(joined(ps, seq![sep]) == first + seq![sep] + joined(rest.drop_first(), seq![sep]));
                assert(joined(rest, seq![sep]) == rest[0] + seq![sep] + joined(rest.drop_first(), seq![sep]));
                assert(joined(ps, seq![sep]) =~= seq![s[0]] + joined(rest, seq![sep]));
                assert(seq![s[0]] + t =~= s);
            }
            assert forall|i: int, j: int| 0 <= i < ps.len() && 0 <= j < ps[i].len() implies (#[trigger] ps[i][j]) != sep by {
                if i == 0 {
                    if j > 0 {
                        assert(ps[0][j] == rest[0][j - 1]);
                    }
                } else {
                    assert(ps[i] == rest[i]);
                }
            }
        }
    }
}

/// `split_on` yields at least one piece.
pub proof fn lemma_split_on_len(s: Seq<char>, sep: char)
    ensures
        split_on(s, sep).len() >= 1,
    decreases s.len(),
{
    if s.len() > 0 {
        lemma_split_on_len(s.drop_first(), sep);
    }
}

/// `pieces` with `cur` put in front of its first piece.
pub open spec fn prefix_first(cur: Seq<char>, pieces: Seq<Seq<char>>) -> Seq<Seq<char>> {
    pieces.update(0, cur + pieces[0])
}

/// The pieces of `v` between occurrences of `sep` (`str::split`).
pub fn split_chars(v: &Vec<char>, sep: char) -> (r: Vec<Vec<char>>)
    ensures
        r@.map_values(|p: Vec<char>| p@) == split_on(v@, sep),
{
    let n = v.len();
    let mut done: Vec<Vec<char>> = Vec::new();
    let mut cur: Vec<char> = Vec::new();
    let mut i: usize = 0;
    proof {
        assert(v@.skip(0) =~= v@);
        lemma_split_on_len(v@, sep);
        assert(prefix_first(Seq::<char>::empty(), split_on(v@, sep)) =~= split_on(v@, sep));
        assert(done@.map_values(|p: Vec<char>| p@) =~= Seq::<Seq<char>>::empty());
    }
    while i < n
        invariant
            n == v@.len(),
            i <= n,
            split_on(v@, sep) == done@.map_values(|p: Vec<char>| p@) + prefix_first(
                cur@,
                split_on(v@.skip(i as int), sep),
            ),
        decreases n - i,
    {
        let ghost t = v@.skip(i as int);
        let ghost rest = split_on(v@.skip(i + 1), sep);
        proof {
            assert(t.drop_first() =~= v@.skip(i + 1));
            assert(t[0] == v@[i as int]);
            lemma_split_on_len(v@.skip(i + 1), sep);
        }
        if v[i] == sep {
            proof {
                assert(prefix_first(cur@, split_on(t, sep)) =~= seq![cur@] + rest);
                assert(prefix_first(Seq::<char>::empty(), rest) =~= rest);
            }
            let ghost before = done@.map_values(|p: Vec<char>| p@);
            done.push(cur);
            cur = Vec::new();
            proof {
                assert(done@.map_values(|p: Vec<char>| p@) =~= before.push(done@.last()@));
            }
        } else {
            let ghost prev = cur@;
            cur.push(v[i]);
            proof {
                assert(split_on(t, sep) == rest.update(0, seq![t[0]] + rest[0]));
                assert(prev + (seq![t[0]] + rest[0]) =~= cur@ + rest[0]);
                assert(prefix_first(prev, split_on(t, sep)) =~= prefix_first(cur@, rest));
            }
        }
        i = i + 1;
    }
    proof {
        assert(v@.skip(n as int) =~= Seq::<char>::empty());
        assert(prefix_first(cur@, seq![Seq::<char>::empty()]) =~= seq![cur@]);
    }
    let ghost before = done@.map_values(|p: Vec<char>| p@);
    done.push(cur);
    assert(done@.map_values(|p: Vec<char>| p@) =~= before.push(done@.last()@));
    done
}

/// `p` without one carriage return at its end.
pub open spec fn strip_cr(p: Seq<char>) -> Seq<char> {
    if p.len() > 0 && p.last() == '\r' {
        p.drop_last()
    } else {
        p
    }
}

/// The lines of `s` (`str::lines`): the pieces ended by a line feed, each
/// without a carriage return just before that line feed, then the text
/// after the last line feed where it is not empty.
pub open spec fn lines_of(s: Seq<char>) -> Seq<Seq<char>> {
    let ps = split_on(s, '\n');
    let last = ps[ps.len() - 1];
    ps.take(ps.len() - 1).map_values(|p: Seq<char>| strip_cr(p)) + (if last.len() > 0 {
        seq![last]
    } else {
        Seq::empty()
    })
}

/// A copy of `v`, without a final carriage return when `drop_cr` is set
/// (see `strip_cr`).
fn copy_line(v: &Vec<char>, drop_cr: bool) -> (r: Vec<char>)
    ensures
        r@ == (if drop_cr {
            strip_cr(v@)
        } else {
            v@
        }),
{
    let mut end = v.len();
    if drop_cr && end > 0 && v[end - 1] == '\r' {
        end = end - 1;
    }
    let mut r: Vec<char> = Vec::new();
    let mut i: usize = 0;
    while i < end
        invariant
            i <= end <= v@.len(),
            r@ == v@.take(i as int),
        decreases end - i,
    {
        r.push(v[i]);
        i = i + 1;
        assert(r@ =~= v@.take(i as int));
    }
    assert(r@ =~= v@.take(end as int));
    proof {
        if drop_cr && v@.len() > 0 && v@.last() == '\r' {
            assert(v@.take(end as int) =~= v@.drop_last());
        } else {
            assert(v@.take(end as int) =~= v@);
        }
    }
    r
}

/// The lines of `v` (see `lines_of`).
pub fn lines_chars(v: &Vec<char>) -> (r: Vec<Vec<char>>)
    ensures
        r@.map_values(|p: Vec<char>| p@) == lines_of(v@),
{
    let ps = split_chars(v, '\n');
    let ghost pv = ps@.map_values(|p: Vec<char>| p@);
    proof {
        lemma_split_on_len(v@, '\n');
    }
    let n = ps.len();
    let mut r: Vec<Vec<char>> = Vec::new();
    let mut k: usize = 0;
    while k + 1 < n
        invariant
            n == ps@.len() >= 1,
            pv == ps@.map_values(|p: Vec<char>| p@),
            k + 1 <= n,
            r@.map_values(|p: Vec<char>| p@) == pv.take(k as int).map_values(
                |p: Seq<char>| strip_cr(p),
            ),
        decreases n - k,
    {
        let line = copy_line(&ps[k], true);
        let ghost before = r@.map_values(|p: Vec<char>| p@);
        r.push(line);
        proof {
            assert(r@.map_values(|p: Vec<char>| p@) =~= before.push(strip_cr(pv[k as int])));
            assert(pv.take(k + 1).map_values(|p: Seq<char>| strip_cr(p)) =~= pv.take(
                k as int,
            ).map_values(|p: Seq<char>| strip_cr(p)).push(strip_cr(pv[k as int])));
        }
        k = k + 1;
    }
    let ghost body = r@.map_values(|p: Vec<char>| p@);
    if ps[n - 1].len() > 0 {
        let line = copy_line(&ps[n - 1], false);
        r.push(line);
        assert(r@.map_values(|p: Vec<char>| p@) =~= body + seq![pv[n - 1]]);
    } else {
        assert(body + Seq::<Seq<char>>::empty() =~= body);
    }
    r
}

/// `ps` joined with `sep` between neighbours (`[String]::join`).
pub open spec fn joined(ps: Seq<Seq<char>>, sep: Seq<char>) -> Seq<char>
    decreases ps.len(),
{
    if ps.len() == 0 {
        Seq::empty()
    } else if ps.len() == 1 {
        ps[0]
    } else {
        ps[0] + sep + joined(ps.drop_first(), sep)
    }
}

/// Joining puts `sep` between neighbours and nowhere else: the joined
/// pieces followed by `sep` are the pieces, each followed by `sep`, run
/// together.
pub proof fn lemma_joined_flatten(ps: Seq<Seq<char>>, sep: Seq<char>)
    requires
        ps.len() > 0,
    ensures
        joined(ps, sep) + sep == ps.map_values(|p: Seq<char>| p + sep).flatten(),
    decreases ps.len(),
{
    let m = ps.map_values(|p: Seq<char>| p + sep);
    assert(m.first() == ps[0] + sep);
    if ps.len() == 1 {
        assert(m.drop_first() =~= Seq::<Seq<char>>::empty());
        assert(m.drop_first().flatten() =~= Seq::<char>::empty());
        assert(m.flatten() =~= ps[0] + sep);
    } else {
        lemma_joined_flatten(ps.drop_first(), sep);
        assert(m.drop_first() =~= ps.drop_first().map_values(|p: Seq<char>| p + sep));
        assert(joined(ps, sep) + sep =~= (ps[0] + sep) + (joined(ps.drop_first(), sep) + sep));
    }
}

/// Joining one more piece at the end.
pub proof fn lemma_joined_push(ps: Seq<Seq<char>>, sep: Seq<char>, p: Seq<char>)
    ensures
        joined(ps.push(p), sep) == if ps.len() == 0 {
            p
        } else {
            joined(ps, sep) + sep + p
        },
    decreases ps.len(),
{
    if ps.len() == 0 {
        assert(ps.push(p) =~= seq![p]);
    } else if ps.len() == 1 {
        assert(ps.push(p).drop_first() =~= seq![p]);
        assert(joined(seq![p], sep) == p);
        assert(joined(ps, sep) == ps[0]);
        assert(joined(ps.push(p), sep) =~= ps[0] + sep + p);
    } else {
        lemma_joined_push(ps.drop_first(), sep, p);
        assert(ps.push(p).drop_first() =~= ps.drop_first().push(p));
        assert(joined(ps.push(p), sep) =~= joined(ps, sep) + sep + p);
    }
}

/// `parts` joined with `sep` between neighbours (`[String]::join`).
pub fn join_strings(parts: &Vec<String>, sep: &str) -> (r: String)
    ensures
        r@ == joined(parts.deep_view(), sep@),
{
    let mut out: Vec<char> = Vec::new();
    let mut k: usize = 0;
    while k < parts.len()
        invariant
            k <= parts@.len(),
            out@ == joined(parts.deep_view().take(k as int), sep@),
        decreases parts@.len() - k,
    {
        proof {
            assert(parts.deep_view().take(k + 1) =~= parts.deep_view().take(k as int).push(
                parts@[k as int]@,
            ));
            lemma_joined_push(parts.deep_view().take(k as int), sep@, parts@[k as int]@);
        }
        if k > 0 {
            append_str(&mut out, sep);
        }
        append_str(&mut out, parts[k].as_str());
        k = k + 1;
    }
    assert(parts.deep_view().take(parts@.len() as int) =~= parts.deep_view());
    string_from_chars(&out)
}


/// The number of bytes of the UTF-8 encoding of `c`.
pub fn utf8_width(c: char) -> (r: usize)
    ensures
        r == encode_scalar(c as u32).len(),
{
    proof {
        vstd::utf8::char_is_scalar(c);
    }
    let n = c as u32;
    if n <= 0x7f {
        1
    } else if n <= 0x7ff {
        2
    } else if n <= 0xffff {
        3
    } else {
        4
    }
}

/// Encoding one more character appends its encoding.
pub proof fn lemma_encode_utf8_push(a: Seq<char>, c: char)
    ensures
        encode_utf8(a.push(c)) == encode_utf8(a) + encode_scalar(c as u32),
    decreases a.len(),
{
    if a.len() == 0 {
        assert(a.push(c).drop_first() =~= Seq::<char>::empty());
        assert(a.push(c)[0] == c);
        assert(encode_utf8(Seq::<char>::empty()) =~= Seq::<u8>::empty());
        assert(encode_utf8(a.push(c)) == encode_scalar(c as u32) + encode_utf8(
            Seq::<char>::empty(),
        ));
        assert(encode_utf8(a.push(c)) =~= encode_utf8(a) + encode_scalar(c as u32));
    } else {
        lemma_encode_utf8_push(a.drop_first(), c);
        assert(a.push(c).drop_first() =~= a.drop_first().push(c));
        assert(a.push(c)[0] == a[0]);
        assert(encode_utf8(a.push(c)) == encode_scalar(a[0] as u32) + encode_utf8(
            a.drop_first().push(c),
        ));
        assert(encode_utf8(a) == encode_scalar(a[0] as u32) + encode_utf8(a.drop_first()));
        assert(encode_utf8(a.push(c)) =~= encode_utf8(a) + encode_scalar(c as u32));
    }
}

/// The index of the last occurrence of `c` in `s`, or -1.
pub open spec fn last_index_of(s: Seq<char>, c: char) -> int
    decreases s.len(),
{
    if s.len() == 0 {
        -1
    } else if s.last() == c {
        s.len() - 1
    } else {
        last_index_of(s.drop_last(), c)
    }
}

/// Where `c` last occurs in `s`: the byte offset of that occurrence in the
/// UTF-8 encoding of `s` (`str::rfind`), or `None`.
pub open spec fn rfind_byte(s: Seq<char>, c: char) -> Option<nat> {
    let i = last_index_of(s, c);
    if i < 0 {
        None
    } else {
        Some(encode_utf8(s.take(i)).len())
    }
}

/// The last occurrence found by `last_index_of` is in range and holds `c`.
pub proof fn lemma_last_index_of(s: Seq<char>, c: char)
    ensures
        -1 <= last_index_of(s, c) < s.len(),
        last_index_of(s, c) >= 0 ==> s[last_index_of(s, c)] == c,
        forall|j: int| last_index_of(s, c) < j < s.len() ==> s[j] != c,
    decreases s.len(),
{
    if s.len() > 0 && s.last() != c {
        let t = s.drop_last();
        lemma_last_index_of(t, c);
        assert forall|j: int| last_index_of(s, c) < j < s.len() implies s[j] != c by {
            if j < t.len() {
                assert(s[j] == t[j]);
            }
        }
    }
}

/// Where the character `c` last occurs in `v`, as a UTF-8 byte offset
/// (`str::rfind`).
pub fn rfind_char(v: &Vec<char>, c: char) -> (r: Option<usize>)
    requires
        encode_utf8(v@).len() <= usize::MAX,
    ensures
        r matches Some(b) ==> rfind_byte(v@, c) == Some(b as nat),
        r is None ==> rfind_byte(v@, c) is None,
{
    proof {
        lemma_last_index_of(v@, c);
    }
    let mut found: Option<usize> = None;
    let mut bytes: usize = 0;
    let mut k: usize = 0;
    assert(v@.take(0) =~= Seq::<char>::empty());
    while k < v.len()
        invariant
            k <= v@.len(),
            encode_utf8(v@).len() <= usize::MAX,
            bytes == encode_utf8(v@.take(k as int)).len(),
            found is None ==> forall|j: int| 0 <= j < k ==> v@[j] != c,
            found matches Some(b) ==> exists|j: int|
                0 <= j < k && v@[j] == c && b == encode_utf8(v@.take(j)).len() && forall|
                    i: int,
                | j < i < k ==> v@[i] != c,
        decreases v@.len() - k,
    {
        proof {
            assert(v@.take(k + 1) =~= v@.take(k as int).push(v@[k as int]));
            lemma_encode_utf8_push(v@.take(k as int), v@[k as int]);
            lemma_encode_utf8_prefix_len(v@, k + 1);
        }
        if v[k] == c {
            found = Some(bytes);
        }
        bytes = bytes + utf8_width(v[k]);
        k = k + 1;
    }
    proof {
        let i = last_index_of(v@, c);
        match found {
            Some(b) => {
                let j = choose|j: int|
                    0 <= j < v@.len() && v@[j] == c && b == encode_utf8(v@.take(j)).len() && forall|
                        i: int,
                    | j < i < v@.len() ==> v@[i] != c;
                assert(i == j);
            },
            None => {
                if i >= 0 {
                    assert(v@[i] == c);
                }
            },
        }
    }
    found
}

/// A prefix encodes to no more bytes than the whole.
pub proof fn lemma_encode_utf8_prefix_len(s: Seq<char>, k: int)
    requires
        0 <= k <= s.len(),
    ensures
        encode_utf8(s.take(k)).len() <= encode_utf8(s).len(),
    decreases s.len() - k,
{
    if k < s.len() {
        lemma_encode_utf8_prefix_len(s, k + 1);
        assert(s.take(k + 1) =~= s.take(k).push(s[k]));
        lemma_encode_utf8_push(s.take(k), s[k]);
    } else {
        assert(s.take(k) =~= s);
    }
}

/// `s` with its first `n` occurrences of `c` removed (`str::replacen` with
/// an empty replacement).
pub open spec fn remove_first(s: Seq<char>, c: char, n: nat) -> Seq<char>
    decreases s.len(),
{
    if s.len() == 0 {
        s
    } else if s[0] == c && n > 0 {
        remove_first(s.drop_first(), c, (n - 1) as nat)
    } else {
        seq![s[0]] + remove_first(s.drop_first(), c, n)
    }
}

/// The characters of `v` with the first `n` occurrences of `c` removed.
pub fn remove_first_chars(v: &Vec<char>, c: char, n: usize) -> (r: Vec<char>)
    ensures
        r@ == remove_first(v@, c, n as nat),
{
    let mut r: Vec<char> = Vec::new();
    let mut left: usize = n;
    let mut k: usize = 0;
    assert(v@.skip(0) =~= v@);
    while k < v.len()
        invariant
            k <= v@.len(),
            remove_first(v@, c, n as nat) == r@ + remove_first(v@.skip(k as int), c, left as nat),
        decreases v@.len() - k,
    {
        let ghost t = v@.skip(k as int);
        proof {
            assert(t[0] == v@[k as int]);
            assert(t.drop_first() =~= v@.skip(k + 1));
        }
        if v[k] == c && left > 0 {
            left = left - 1;
        } else {
            let ghost before = r@;
            r.push(v[k]);
            proof {
                assert(before + (seq![v@[k as int]] + remove_first(v@.skip(k + 1), c, left as nat))
                    =~= r@ + remove_first(v@.skip(k + 1), c, left as nat));
            }
        }
        k = k + 1;
    }
    proof {
        assert(v@.skip(v@.len() as int) =~= Seq::<char>::empty());
        assert(r@ + Seq::<char>::empty() =~= r@);
    }
    r
}

} // verus!
