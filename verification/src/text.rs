//! Building the text of error messages: decimal numbers and byte lists, as Rust's `{}`
//! and `{:?}` print them.
use vstd::prelude::*;
use vstd::string::{StrSliceExecFns, StringExecFns};

verus! {

/// The character of a decimal digit.
pub open spec fn digit_char(d: int) -> char {
    if d == 0 {
        '0'
    } else if d == 1 {
        '1'
    } else if d == 2 {
        '2'
    } else if d == 3 {
        '3'
    } else if d == 4 {
        '4'
    } else if d == 5 {
        '5'
    } else if d == 6 {
        '6'
    } else if d == 7 {
        '7'
    } else if d == 8 {
        '8'
    } else {
        '9'
    }
}

/// A number written in decimal, without leading zeros.
pub open spec fn decimal(x: nat) -> Seq<char>
    decreases x,
{
    if x < 10 {
        seq![digit_char(x as int)]
    } else {
        decimal(x / 10).push(digit_char((x % 10) as int))
    }
}

/// Appends one decimal digit.
fn push_digit(s: &mut String, d: u64)
    requires
        d < 10,
    ensures
        final(s)@ == old(s)@.push(digit_char(d as int)),
{
    proof {
        reveal_strlit("0");
        reveal_strlit("1");
        reveal_strlit("2");
        reveal_strlit("3");
        reveal_strlit("4");
        reveal_strlit("5");
        reveal_strlit("6");
        reveal_strlit("7");
        reveal_strlit("8");
        reveal_strlit("9");
    }
    if d == 0 {
        s.append("0");
    } else if d == 1 {
        s.append("1");
    } else if d == 2 {
        s.append("2");
    } else if d == 3 {
        s.append("3");
    } else if d == 4 {
        s.append("4");
    } else if d == 5 {
        s.append("5");
    } else if d == 6 {
        s.append("6");
    } else if d == 7 {
        s.append("7");
    } else if d == 8 {
        s.append("8");
    } else {
        s.append("9");
    }
    assert(s@ =~= old(s)@.push(digit_char(d as int)));
}

/// Appends a number in decimal.
pub fn push_decimal(s: &mut String, x: u64)
    ensures
        final(s)@ == old(s)@ + decimal(x as nat),
{
    push_wide_decimal(s, x as u128);
}

/// Appends a 128-bit number in decimal.
pub fn push_wide_decimal(s: &mut String, x: u128)
    ensures
        final(s)@ == old(s)@ + decimal(x as nat),
    decreases x,
{
    if x < 10 {
        push_digit(s, x as u64);
        assert(decimal(x as nat) =~= seq![digit_char(x as int)]);
        assert(old(s)@.push(digit_char(x as int)) =~= old(s)@ + decimal(x as nat));
    } else {
        push_wide_decimal(s, x / 10);
        push_digit(s, (x % 10) as u64);
        assert(s@ =~= old(s)@ + decimal(x as nat));
    }
}

/// Appends text.
pub fn push_text(s: &mut String, t: &str)
    ensures
        final(s)@ == old(s)@ + t@,
{
    s.append(t);
}

/// A list of bytes as `{:?}` prints it: in square brackets, in decimal, separated by a
/// comma and a space.
pub open spec fn byte_list(b: Seq<u8>) -> Seq<char> {
    seq!['['] + byte_items(b, b.len() as int) + seq![']']
}

/// The first `n` bytes of a list, in decimal, separated by a comma and a space.
pub open spec fn byte_items(b: Seq<u8>, n: int) -> Seq<char>
    decreases n,
{
    if n <= 0 {
        Seq::empty()
    } else if n == 1 {
        decimal(b[0] as nat)
    } else {
        byte_items(b, n - 1) + seq![',', ' '] + decimal(b[n - 1] as nat)
    }
}

/// Appends a list of bytes as `{:?}` prints it.
pub fn push_byte_list(s: &mut String, b: &[u8])
    ensures
        final(s)@ == old(s)@ + byte_list(b@),
{
    proof {
        reveal_strlit("[");
        reveal_strlit("]");
        reveal_strlit(", ");
    }
    s.append("[");
    let ghost start = s@;
    let mut i: usize = 0;
    while i < b.len()
        invariant
            i <= b@.len(),
            start == old(s)@ + seq!['['],
            s@ == start + byte_items(b@, i as int),
        decreases b@.len() - i,
    {
        let ghost before = s@;
        proof {
            reveal_strlit(", ");
        }
        if i > 0 {
            s.append(", ");
        }
        let ghost mid = s@;
        push_decimal(s, b[i] as u64);
        proof {
            if i == 0 {
                assert(byte_items(b@, 1) == decimal(b@[0] as nat));
                assert(s@ =~= start + byte_items(b@, i as int + 1));
            } else {
                assert(mid =~= before + seq![',', ' ']);
                assert(byte_items(b@, i as int + 1) == byte_items(b@, i as int) + seq![',', ' '] + decimal(b@[i as int] as nat));
                assert(s@ =~= start + byte_items(b@, i as int + 1));
            }
        }
        i = i + 1;
    }
    s.append("]");
    assert(s@ =~= old(s)@ + byte_list(b@));
}

/// A lowercase hexadecimal digit.
pub open spec fn hex_digit(d: int) -> char {
    if d < 10 {
        (48 + d) as char
    } else {
        (87 + d) as char
    }
}

/// Bytes in lowercase hexadecimal, two digits per byte, high half first.
pub open spec fn hex_text(b: Seq<u8>) -> Seq<char>
    decreases b.len(),
{
    if b.len() == 0 {
        Seq::empty()
    } else {
        hex_text(b.drop_last()) + seq![hex_digit(b.last() as int / 16), hex_digit(b.last() as int % 16)]
    }
}

/// `hex::encode`: claimed, as the crate's source shows, to write each byte as two
/// lowercase hexadecimal digits, high half first.
#[verifier::external_body]
pub(crate) fn hex_encode(bytes: &[u8]) -> (r: String)
    ensures
        r@ == hex_text(bytes@),
{
    hex::encode(bytes)
}

/// Text, a number, text.
pub fn text_number(a: &str, x: u64, b: &str) -> (r: String)
    ensures
        r@ == a@ + decimal(x as nat) + b@,
{
    let mut s = a.to_owned();
    push_decimal(&mut s, x);
    push_text(&mut s, b);
    s
}

/// Text, then a number.
pub fn text_then_number(a: &str, x: u64) -> (r: String)
    ensures
        r@ == a@ + decimal(x as nat),
{
    let mut s = a.to_owned();
    push_decimal(&mut s, x);
    s
}

/// Text, a number, text, a number.
pub fn text_numbers(a: &str, x: u64, b: &str, y: u64) -> (r: String)
    ensures
        r@ == a@ + decimal(x as nat) + b@ + decimal(y as nat),
{
    let mut s = a.to_owned();
    push_decimal(&mut s, x);
    push_text(&mut s, b);
    push_decimal(&mut s, y);
    s
}

/// Text, a number, text, a number, text.
pub fn text_numbers_text(a: &str, x: u64, b: &str, y: u64, c: &str) -> (r: String)
    ensures
        r@ == a@ + decimal(x as nat) + b@ + decimal(y as nat) + c@,
{
    let mut s = a.to_owned();
    push_decimal(&mut s, x);
    push_text(&mut s, b);
    push_decimal(&mut s, y);
    push_text(&mut s, c);
    s
}

/// Text, a byte list, text, a byte list.
pub fn text_byte_lists(a: &str, x: &[u8], b: &str, y: &[u8]) -> (r: String)
    ensures
        r@ == a@ + byte_list(x@) + b@ + byte_list(y@),
{
    let mut s = a.to_owned();
    push_byte_list(&mut s, x);
    push_text(&mut s, b);
    push_byte_list(&mut s, y);
    s
}

/// Whether every character is a decimal digit.
pub open spec fn all_digits(s: Seq<char>) -> bool {
    forall|i: int| 0 <= i < s.len() ==> 48 <= #[trigger] (s[i] as int) <= 57
}

/// The number a string of decimal digits denotes.
pub open spec fn digits_value(s: Seq<char>) -> nat
    decreases s.len(),
{
    if s.len() == 0 {
        0
    } else {
        digits_value(s.drop_last()) * 10 + ((s.last() as int - 48) as nat)
    }
}

/// The number an unsigned integer's text denotes, as Rust's `parse` reads it: an
/// optional `+`, then one or more decimal digits.
pub open spec fn parsed_unsigned(s: Seq<char>) -> Option<nat> {
    let t = if s.len() > 0 && s[0] == '+' { s.drop_first() } else { s };
    if t.len() == 0 || !all_digits(t) { None } else { Some(digits_value(t)) }
}

/// Reads an unsigned integer no larger than `max` from text, as `parsed_unsigned` states;
/// none when the text is not a number or the number is larger.
pub fn parse_unsigned(s: &str, max: u64) -> (r: Option<u64>)
    ensures
        r == (match parsed_unsigned(s@) {
            Some(n) => if n <= max { Some(n as u64) } else { None::<u64> },
            None => None::<u64>,
        }),
{
    let n = s.unicode_len();
    if n == 0 {
        return None;
    }
    let start: usize = if s.get_char(0) == '+' { 1 } else { 0 };
    let ghost t = if s@.len() > 0 && s@[0] == '+' { s@.drop_first() } else { s@ };
    assert(t =~= s@.subrange(start as int, n as int));
    if start == n {
        return None;
    }
    let mut acc: u64 = 0;
    let mut i: usize = start;
    while i < n
        invariant
            start <= i <= n,
            n == s@.len(),
            t == s@.subrange(start as int, n as int),
            t == (if s@.len() > 0 && s@[0] == '+' { s@.drop_first() } else { s@ }),
            all_digits(s@.subrange(start as int, i as int)),
            acc == digits_value(s@.subrange(start as int, i as int)),
            acc <= max,
        decreases n - i,
    {
        let c = s.get_char(i);
        let cv = c as u32;
        let ghost prefix = s@.subrange(start as int, i as int);
        let ghost next = s@.subrange(start as int, i as int + 1);
        assert(next.drop_last() =~= prefix);
        assert(next.last() == c);
        assert(t[i - start] == c);
        if cv < 48 || cv > 57 {
            assert(!all_digits(t)) by {
                assert(!(48 <= (t[i - start] as int) <= 57));
            }
            return None;
        }
        let d = (cv - 48) as u64;
        if (acc as u128) * 10 + (d as u128) > max as u128 {
            assert(digits_value(next) > max);
            assert(all_digits(t) ==> digits_value(t) > max) by {
                if all_digits(t) {
                    lemma_digits_value_prefix(t, (i - start) as int + 1);
                    assert(t.subrange(0, (i - start) as int + 1) =~= next);
                }
            }
            return None;
        }
        acc = acc * 10 + d;
        assert(all_digits(next)) by {
            assert forall|k: int| 0 <= k < next.len() implies 48 <= #[trigger] (next[k] as int) <= 57 by {
                if k < prefix.len() {
                    assert(next[k] == prefix[k]);
                }
            }
        }
        i = i + 1;
    }
    assert(s@.subrange(start as int, n as int) == t);
    Some(acc)
}

/// A longer run of digits denotes no smaller a number than its prefix.
pub proof fn lemma_digits_value_prefix(t: Seq<char>, k: int)
    requires
        0 <= k <= t.len(),
        all_digits(t),
    ensures
        digits_value(t.subrange(0, k)) <= digits_value(t),
    decreases t.len() - k,
{
    if k < t.len() {
        lemma_digits_value_prefix(t, k + 1);
        let a = t.subrange(0, k);
        let b = t.subrange(0, k + 1);
        assert(b.drop_last() =~= a);
        assert(48 <= (t[k] as int));
        assert(b.last() == t[k]);
    } else {
        assert(t.subrange(0, k) =~= t);
    }
}

/// Whether two strings have the same characters.
pub fn str_eq(a: &str, b: &str) -> (r: bool)
    ensures
        r == (a@ == b@),
{
    let n = a.unicode_len();
    if n != b.unicode_len() {
        return false;
    }
    let mut i: usize = 0;
    while i < n
        invariant
            n == a@.len() == b@.len(),
            i <= n,
            forall|j: int| 0 <= j < i ==> a@[j] == b@[j],
        decreases n - i,
    {
        if a.get_char(i) != b.get_char(i) {
            return false;
        }
        i = i + 1;
    }
    assert(a@ =~= b@);
    true
}

/// Whether `n` occurs in `h` as a run of consecutive characters.
pub open spec fn text_contains(h: Seq<char>, n: Seq<char>) -> bool {
    exists|i: int| 0 <= i && i + n.len() <= h.len() && #[trigger] h.subrange(i, i + n.len()) == n
}

/// Whether `needle` occurs in `haystack`, as `text_contains` states.
pub fn contains_text(haystack: &str, needle: &str) -> (r: bool)
    ensures
        r == text_contains(haystack@, needle@),
{
    let hl = haystack.unicode_len();
    let nl = needle.unicode_len();
    if nl > hl {
        return false;
    }
    let mut i: usize = 0;
    while i <= hl - nl
        invariant
            hl == haystack@.len(),
            nl == needle@.len(),
            nl <= hl,
            i <= hl - nl + 1,
            forall|k: int| 0 <= k < i ==> #[trigger] haystack@.subrange(k, k + nl) != needle@,
        decreases hl - nl + 1 - i,
    {
        let mut j: usize = 0;
        let mut same = true;
        while j < nl && same
            invariant
                hl == haystack@.len(),
                nl == needle@.len(),
                i + nl <= hl,
                j <= nl,
                same ==> forall|t: int| 0 <= t < j ==> haystack@[i + t] == needle@[t],
                !same ==> exists|t: int| 0 <= t < nl && haystack@[i + t] != needle@[t],
            decreases (nl - j) as int + (if same { 1int } else { 0int }),
        {
            if haystack.get_char(i + j) != needle.get_char(j) {
                same = false;
            } else {
                j = j + 1;
            }
        }
        if same {
            assert(haystack@.subrange(i as int, i + nl) =~= needle@);
            return true;
        }
        proof {
            let t = choose|t: int| 0 <= t < nl && haystack@[i + t] != needle@[t];
            assert(haystack@.subrange(i as int, i + nl)[t] != needle@[t]);
        }
        i = i + 1;
    }
    proof {
        assert forall|k: int| 0 <= k && k + needle@.len() <= haystack@.len()
            implies #[trigger] haystack@.subrange(k, k + needle@.len()) != needle@ by {
            assert(haystack@.subrange(k, k + nl) != needle@);
        }
    }
    false
}

/// Whether a character is a decimal digit.
pub open spec fn is_digit_char(c: char) -> bool {
    '0' <= c && c <= '9'
}

/// The end of the run of digits that starts at `i`.
pub open spec fn digits_end(s: Seq<char>, i: int) -> int
    decreases s.len() - i,
{
    if i < 0 || i >= s.len() || !is_digit_char(s[i]) {
        i
    } else {
        digits_end(s, i + 1)
    }
}

/// Whether `c` is the ASCII letter `lower`, in either case.
pub open spec fn same_letter(c: char, lower: char) -> bool {
    c == lower || (c as u32) + 32 == (lower as u32)
}

/// Whether `t` spells the word `w` of lower-case letters, in any case.
pub open spec fn word_is(t: Seq<char>, w: Seq<char>) -> bool {
    t.len() == w.len() && forall|i: int| 0 <= i < t.len() ==> same_letter(#[trigger] t[i], w[i])
}

/// Whether the text from `j` is an exponent's digits: an optional sign, then one or more
/// digits to the end.
pub open spec fn exponent_syntax(s: Seq<char>, j: int) -> bool {
    let k = if j < s.len() && (s[j] == '+' || s[j] == '-') { j + 1 } else { j };
    digits_end(s, k) > k && digits_end(s, k) == s.len()
}

/// Whether the text from `p` is a decimal number: digits, optionally a point and more
/// digits, at least one digit in all, then optionally `e` or `E` and an exponent.
pub open spec fn number_syntax(s: Seq<char>, p: int) -> bool {
    let a = digits_end(s, p);
    let has_point = a < s.len() && s[a] == '.';
    let b = if has_point { digits_end(s, a + 1) } else { a };
    let digits = if has_point { b - p - 1 } else { a - p };
    &&& digits >= 1
    &&& (b == s.len() || ((s[b] == 'e' || s[b] == 'E') && exponent_syntax(s, b + 1)))
}

/// Whether text is a floating-point number as `f64`'s `from_str` reads one: an optional
/// sign, then `inf`, `infinity` or `nan` in any case, or a decimal number.
pub open spec fn f64_syntax(s: Seq<char>) -> bool {
    let p = if s.len() > 0 && (s[0] == '+' || s[0] == '-') { 1int } else { 0int };
    let t = s.skip(p);
    ||| word_is(t, seq!['i', 'n', 'f'])
    ||| word_is(t, seq!['i', 'n', 'f', 'i', 'n', 'i', 't', 'y'])
    ||| word_is(t, seq!['n', 'a', 'n'])
    ||| number_syntax(s, p)
}

/// The end of the run of digits that starts at `i`, as `digits_end` states.
fn skip_digits(s: &str, i: usize, n: usize) -> (r: usize)
    requires
        n == s@.len(),
        i <= n,
    ensures
        r == digits_end(s@, i as int),
        i <= r <= n,
{
    let mut j = i;
    while j < n
        invariant
            n == s@.len(),
            i <= j <= n,
            digits_end(s@, j as int) == digits_end(s@, i as int),
        decreases n - j,
    {
        let c = s.get_char(j);
        if !('0' <= c && c <= '9') {
            return j;
        }
        j = j + 1;
    }
    j
}

/// Whether the text from `p` spells `w`, a word of lower-case ASCII letters, in any case.
fn word_from(s: &str, p: usize, n: usize, w: &[char]) -> (r: bool)
    requires
        n == s@.len(),
        p <= n,
    ensures
        r == word_is(s@.skip(p as int), w@),
{
    if n - p != w.len() {
        return false;
    }
    let mut i: usize = 0;
    while i < w.len()
        invariant
            n == s@.len(),
            p <= n,
            n - p == w@.len(),
            i <= w@.len(),
            forall|k: int| 0 <= k < i ==> same_letter(#[trigger] s@.skip(p as int)[k], w@[k]),
        decreases w@.len() - i,
    {
        let c = s.get_char(p + i);
        let l = w[i];
        if !(c == l || (c as u32) + 32 == (l as u32)) {
            assert(s@.skip(p as int)[i as int] == c);
            return false;
        }
        assert(s@.skip(p as int)[i as int] == c);
        i = i + 1;
    }
    true
}

/// Whether text is a floating-point number as `f64`'s `from_str` reads one, as
/// `f64_syntax` states.
pub fn is_f64_text(s: &str) -> (r: bool)
    ensures
        r == f64_syntax(s@),
{
    let n = s.unicode_len();
    let mut p: usize = 0;
    if n > 0 {
        let c = s.get_char(0);
        if c == '+' || c == '-' {
            p = 1;
        }
    }
    let inf = ['i', 'n', 'f'];
    let infinity = ['i', 'n', 'f', 'i', 'n', 'i', 't', 'y'];
    let nan = ['n', 'a', 'n'];
    proof {
        assert(inf@ =~= seq!['i', 'n', 'f']);
        assert(infinity@ =~= seq!['i', 'n', 'f', 'i', 'n', 'i', 't', 'y']);
        assert(nan@ =~= seq!['n', 'a', 'n']);
    }
    if word_from(s, p, n, inf.as_slice()) || word_from(s, p, n, infinity.as_slice()) || word_from(s, p, n, nan.as_slice()) {
        return true;
    }
    let a = skip_digits(s, p, n);
    let mut b = a;
    let mut has_point = false;
    if a < n && s.get_char(a) == '.' {
        has_point = true;
        b = skip_digits(s, a + 1, n);
    }
    let digits = if has_point { b - p - 1 } else { a - p };
    if digits < 1 {
        return false;
    }
    if b == n {
        return true;
    }
    let e = s.get_char(b);
    if !(e == 'e' || e == 'E') {
        return false;
    }
    let mut k = b + 1;
    if k < n {
        let c = s.get_char(k);
        if c == '+' || c == '-' {
            k = k + 1;
        }
    }
    let m = skip_digits(s, k, n);
    m > k && m == n
}

} // verus!
