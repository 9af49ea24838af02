use vstd::prelude::*;
use vstd::string::StringSliceAdditionalSpecFns;
use crate::thread_types::is_lower_hex;

verus! {

/// Number of bytes the UTF-8 encoding of `c` takes.
pub open spec fn char_utf8_width(c: char) -> nat {
    if (c as u32) <= 0x7F {
        1
    } else if (c as u32) <= 0x7FF {
        2
    } else if (c as u32) <= 0xFFFF {
        3
    } else {
        4
    }
}

/// Number of bytes the UTF-8 encoding of `s` takes.
pub open spec fn utf8_len(s: Seq<char>) -> nat
    decreases s.len(),
{
    if s.len() == 0 {
        0
    } else {
        utf8_len(s.drop_last()) + char_utf8_width(s.last())
    }
}

pub proof fn lemma_utf8_len_push(s: Seq<char>, c: char)
    ensures
        utf8_len(s.push(c)) == utf8_len(s) + char_utf8_width(c),
{
    assert(s.push(c).drop_last() =~= s);
}

pub proof fn lemma_utf8_len_take_mono(s: Seq<char>, i: int, j: int)
    requires
        0 <= i <= j <= s.len(),
    ensures
        utf8_len(s.take(i)) <= utf8_len(s.take(j)),
    decreases j - i,
{
    if i < j {
        lemma_utf8_len_take_mono(s, i, j - 1);
        assert(s.take(j).drop_last() =~= s.take(j - 1));
    }
}

pub proof fn lemma_utf8_len_prepend(s: Seq<char>)
    requires
        s.len() > 0,
    ensures
        utf8_len(s) == char_utf8_width(s[0]) + utf8_len(s.drop_first()),
    decreases s.len(),
{
    if s.len() > 1 {
        lemma_utf8_len_prepend(s.drop_last());
        assert(s.drop_last().drop_first() =~= s.drop_first().drop_last());
        assert(s.drop_last()[0] == s[0]);
        assert(s.drop_first().last() == s.last());
        assert(utf8_len(s) == utf8_len(s.drop_last()) + char_utf8_width(s.last()));
        assert(utf8_len(s.drop_first()) == utf8_len(s.drop_first().drop_last())
            + char_utf8_width(s.drop_first().last()));
    } else {
        assert(s.drop_last().len() == 0);
        assert(s.drop_first().len() == 0);
        assert(s.last() == s[0]);
        assert(utf8_len(s) == utf8_len(s.drop_last()) + char_utf8_width(s.last()));
    }
}

/// The UTF-8 byte length that `str::len` reports is `utf8_len` of the view.
pub proof fn lemma_encode_utf8_len(s: Seq<char>)
    ensures
        vstd::utf8::encode_utf8(s).len() == utf8_len(s),
    decreases s.len(),
{
    if s.len() > 0 {
        let c = s[0];
        vstd::utf8::char_is_scalar(c);
        lemma_encode_utf8_len(s.drop_first());
        lemma_utf8_len_prepend(s);
        assert(vstd::utf8::encode_scalar(c as u32).len() == char_utf8_width(c));
    }
}

/// Byte length of `s`.
pub fn byte_len(s: &str) -> (n: usize)
    ensures
        n == utf8_len(s@),
{
    proof {
        lemma_encode_utf8_len(s@);
    }
    let bytes = s.as_bytes();
    bytes.len()
}

/// The byte length of a character, computed.
pub fn char_width(c: char) -> (w: usize)
    ensures
        w == char_utf8_width(c),
{
    let u = c as u32;
    if u <= 0x7F {
        1
    } else if u <= 0x7FF {
        2
    } else if u <= 0xFFFF {
        3
    } else {
        4
    }
}

/// The characters of `s`, in order.
pub fn chars_of(s: &str) -> (v: Vec<char>)
    ensures
        v@ == s@,
{
    let mut v: Vec<char> = Vec::new();
    for c in it: s.chars()
        invariant
            v@ == it.history(),
            it.seq() == s@,
    {
        v.push(c);
    }
    v
}

/// A string made of the given characters (std's `FromIterator<&char>`).
#[verifier::external_body]
pub(crate) fn string_from_chars(chars: &[char]) -> (s: String)
    ensures
        s@ == chars@,
{
    String::from_iter(chars.iter())
}

/// Whether two strings hold the same characters.
pub fn chars_eq(a: &[char], b: &[char]) -> (r: bool)
    ensures
        r == (a@ == b@),
{
    if a.len() != b.len() {
        return false;
    }
    let mut i: usize = 0;
    while i < a.len()
        invariant
            a@.len() == b@.len(),
            i <= a@.len(),
            forall|j: int| 0 <= j < i ==> a@[j] == b@[j],
        decreases a@.len() - i,
    {
        if a[i] != b[i] {
            return false;
        }
        i = i + 1;
    }
    proof {
        assert(a@ =~= b@);
    }
    true
}

/// Whether two strings hold the same characters.
pub fn str_eq(a: &str, b: &str) -> (r: bool)
    ensures
        r == (a@ == b@),
{
    let ca = chars_of(a);
    let cb = chars_of(b);
    chars_eq(ca.as_slice(), cb.as_slice())
}

/// The Unicode `White_Space` property, as `char::is_whitespace` reports it.
pub open spec fn spec_is_whitespace(c: char) -> bool {
    let u = c as u32;
    (0x09 <= u <= 0x0D) || u == 0x20 || u == 0x85 || u == 0xA0 || u == 0x1680 || (0x2000 <= u
        <= 0x200A) || u == 0x2028 || u == 0x2029 || u == 0x202F || u == 0x205F || u == 0x3000
}

pub fn is_whitespace(c: char) -> (r: bool)
    ensures
        r == spec_is_whitespace(c),
{
    let u = c as u32;
    (0x09 <= u && u <= 0x0D) || u == 0x20 || u == 0x85 || u == 0xA0 || u == 0x1680 || (0x2000 <= u
        && u <= 0x200A) || u == 0x2028 || u == 0x2029 || u == 0x202F || u == 0x205F || u == 0x3000
}

/// Number of leading whitespace characters.
pub open spec fn leading_ws(s: Seq<char>) -> nat
    decreases s.len(),
{
    if s.len() == 0 {
        0
    } else if spec_is_whitespace(s[0]) {
        1 + leading_ws(s.drop_first())
    } else {
        0
    }
}

/// Number of trailing whitespace characters.
pub open spec fn trailing_ws(s: Seq<char>) -> nat
    decreases s.len(),
{
    if s.len() == 0 {
        0
    } else if spec_is_whitespace(s.last()) {
        1 + trailing_ws(s.drop_last())
    } else {
        0
    }
}

/// `s` without leading and trailing whitespace (`str::trim`).
pub open spec fn spec_trim(s: Seq<char>) -> Seq<char> {
    let a = leading_ws(s);
    if a == s.len() {
        seq![]
    } else {
        s.subrange(a as int, s.len() - trailing_ws(s))
    }
}

pub proof fn lemma_leading_ws(s: Seq<char>)
    ensures
        leading_ws(s) <= s.len(),
        forall|i: int| 0 <= i < leading_ws(s) ==> spec_is_whitespace(#[trigger] s[i]),
        leading_ws(s) < s.len() ==> !spec_is_whitespace(s[leading_ws(s) as int]),
    decreases s.len(),
{
    if s.len() > 0 && spec_is_whitespace(s[0]) {
        lemma_leading_ws(s.drop_first());
        assert forall|i: int| 0 <= i < leading_ws(s) implies spec_is_whitespace(#[trigger] s[i]) by {
            if i > 0 {
                assert(s[i] == s.drop_first()[i - 1]);
            }
        }
    }
}

pub proof fn lemma_trailing_ws(s: Seq<char>)
    ensures
        trailing_ws(s) <= s.len(),
        forall|i: int| s.len() - trailing_ws(s) <= i < s.len() ==> spec_is_whitespace(#[trigger] s[i]),
        trailing_ws(s) < s.len() ==> !spec_is_whitespace(s[s.len() - 1 - trailing_ws(s)]),
    decreases s.len(),
{
    if s.len() > 0 && spec_is_whitespace(s.last()) {
        lemma_trailing_ws(s.drop_last());
        assert forall|i: int| s.len() - trailing_ws(s) <= i < s.len() implies spec_is_whitespace(
            #[trigger] s[i],
        ) by {
            if i < s.len() - 1 {
                assert(s[i] == s.drop_last()[i]);
            }
        }
    }
}

/// Whether a string is empty once trimmed, i.e. all whitespace.
pub open spec fn is_blank(s: Seq<char>) -> bool {
    forall|i: int| 0 <= i < s.len() ==> spec_is_whitespace(#[trigger] s[i])
}

/// A string is blank exactly when trimming it leaves nothing, so `is_blank`
/// is what `s.trim().is_empty()` tests.
pub proof fn lemma_blank_iff_trim_empty(s: Seq<char>)
    ensures
        is_blank(s) <==> spec_trim(s).len() == 0,
{
    lemma_leading_ws(s);
    lemma_trailing_ws(s);
    if leading_ws(s) < s.len() {
        assert(!spec_is_whitespace(s[leading_ws(s) as int]));
        if trailing_ws(s) + leading_ws(s) >= s.len() {
            assert(spec_is_whitespace(s[leading_ws(s) as int]));
        }
    }
}

/// Whether every character of `s` is whitespace.
pub fn all_whitespace(s: &[char]) -> (r: bool)
    ensures
        r == is_blank(s@),
{
    let mut i: usize = 0;
    while i < s.len()
        invariant
            i <= s@.len(),
            forall|j: int| 0 <= j < i ==> spec_is_whitespace(#[trigger] s@[j]),
        decreases s@.len() - i,
    {
        if !is_whitespace(s[i]) {
            return false;
        }
        i = i + 1;
    }
    true
}

/// `s` with surrounding whitespace removed.
pub fn trim_chars(s: &[char]) -> (r: Vec<char>)
    ensures
        r@ == spec_trim(s@),
{
    proof {
        lemma_leading_ws(s@);
        lemma_trailing_ws(s@);
    }
    let mut a: usize = 0;
    while a < s.len() && is_whitespace(s[a])
        invariant
            a <= s@.len(),
            forall|j: int| 0 <= j < a ==> spec_is_whitespace(#[trigger] s@[j]),
            a <= leading_ws(s@),
        decreases s@.len() - a,
    {
        proof {
            lemma_leading_ws(s@);
            if a == leading_ws(s@) {
                assert(!spec_is_whitespace(s@[a as int]));
            }
        }
        a = a + 1;
    }
    assert(a == leading_ws(s@));
    let mut r: Vec<char> = Vec::new();
    if a == s.len() {
        return r;
    }
    let mut b: usize = s.len();
    while b > a && is_whitespace(s[b - 1])
        invariant
            a <= b <= s@.len(),
            a < s@.len(),
            forall|j: int| b <= j < s@.len() ==> spec_is_whitespace(#[trigger] s@[j]),
            s@.len() - b <= trailing_ws(s@),
        decreases b,
    {
        proof {
            lemma_trailing_ws(s@);
            if s@.len() - b == trailing_ws(s@) {
                assert(!spec_is_whitespace(s@[s@.len() - 1 - trailing_ws(s@)]));
            }
        }
        b = b - 1;
    }
    proof {
        if s@.len() - b < trailing_ws(s@) {
            assert(b > a);
            assert(spec_is_whitespace(s@[b - 1]));
        }
    }
    let mut i: usize = a;
    while i < b
        invariant
            a <= i <= b <= s@.len(),
            r@ == s@.subrange(a as int, i as int),
        decreases b - i,
    {
        r.push(s[i]);
        i = i + 1;
        proof {
            assert(r@ =~= s@.subrange(a as int, i as int));
        }
    }
    r
}

/// Whether `s` starts with `prefix`.
pub fn starts_with_chars(s: &[char], prefix: &[char]) -> (r: bool)
    ensures
        r == (prefix@.len() <= s@.len() && s@.take(prefix@.len() as int) == prefix@),
{
    if prefix.len() > s.len() {
        return false;
    }
    let mut i: usize = 0;
    while i < prefix.len()
        invariant
            prefix@.len() <= s@.len(),
            i <= prefix@.len(),
            forall|j: int| 0 <= j < i ==> s@[j] == prefix@[j],
        decreases prefix@.len() - i,
    {
        if s[i] != prefix[i] {
            proof {
                assert(s@.take(prefix@.len() as int)[i as int] != prefix@[i as int]);
            }
            return false;
        }
        i = i + 1;
    }
    proof {
        assert(s@.take(prefix@.len() as int) =~= prefix@);
    }
    true
}

/// The first `'\n'` at or after `from`.
pub open spec fn index_of_newline(s: Seq<char>, from: int) -> Option<int>
    decreases s.len() - from,
{
    if from < 0 || from >= s.len() {
        None
    } else if s[from] == '\n' {
        Some(from)
    } else {
        index_of_newline(s, from + 1)
    }
}

pub proof fn lemma_index_of_newline(s: Seq<char>, from: int)
    requires
        0 <= from,
    ensures
        index_of_newline(s, from) matches Some(k) ==> from <= k < s.len() && s[k] == '\n'
            && forall|j: int| from <= j < k ==> s[j] != '\n',
        index_of_newline(s, from) is None ==> forall|j: int| from <= j < s.len() && 0 <= j ==> s[j]
            != '\n',
    decreases s.len() - from,
{
    if 0 <= from < s.len() && s[from] != '\n' {
        lemma_index_of_newline(s, from + 1);
    }
}

/// `s` without one trailing carriage return.
pub open spec fn strip_cr(s: Seq<char>) -> Seq<char> {
    if s.len() > 0 && s.last() == '\r' { s.drop_last() } else { s }
}

/// The lines of `s` from position `start` on, as `str::lines` splits them:
/// at `'\n'`, dropping a `'\r'` just before it; a final line ending adds no
/// empty line.
pub open spec fn spec_lines_from(s: Seq<char>, start: int) -> Seq<Seq<char>>
    decreases s.len() - start,
{
    if start < 0 || start >= s.len() {
        seq![]
    } else {
        match index_of_newline(s, start) {
            None => seq![s.subrange(start, s.len() as int)],
            Some(k) => {
                proof {
                    lemma_index_of_newline(s, start);
                }
                seq![strip_cr(s.subrange(start, k))] + spec_lines_from(s, k + 1)
            },
        }
    }
}

/// The lines of `s` (`str::lines`).
pub open spec fn spec_lines(s: Seq<char>) -> Seq<Seq<char>> {
    spec_lines_from(s, 0)
}

/// The views of a list of character vectors.
pub open spec fn vviews(v: Seq<Vec<char>>) -> Seq<Seq<char>> {
    v.map_values(|x: Vec<char>| x@)
}

/// The characters of `s` from `a` to `b`.
pub fn copy_range(s: &[char], a: usize, b: usize) -> (r: Vec<char>)
    requires
        a <= b <= s@.len(),
    ensures
        r@ == s@.subrange(a as int, b as int),
{
    let mut r: Vec<char> = Vec::new();
    let mut i: usize = a;
    while i < b
        invariant
            a <= i <= b <= s@.len(),
            r@ == s@.subrange(a as int, i as int),
        decreases b - i,
    {
        r.push(s[i]);
        i = i + 1;
        proof {
            assert(r@ =~= s@.subrange(a as int, i as int));
        }
    }
    r
}

/// Splits `s` into lines as `str::lines` does.
pub fn lines_of(s: &[char]) -> (r: Vec<Vec<char>>)
    ensures
        vviews(r@) == spec_lines(s@),
{
    let n = s.len();
    let mut r: Vec<Vec<char>> = Vec::new();
    let mut start: usize = 0;
    proof {
        assert(vviews(r@) + spec_lines_from(s@, 0) =~= spec_lines_from(s@, 0));
    }
    while start < n
        invariant
            n == s@.len(),
            start <= n,
            vviews(r@) + spec_lines_from(s@, start as int) == spec_lines(s@),
        decreases n - start,
    {
        let ghost before = r@;
        let mut k: usize = start;
        while k < n && s[k] != '\n'
            invariant
                start <= k <= n,
                n == s@.len(),
                forall|j: int| start <= j < k ==> s@[j] != '\n',
                index_of_newline(s@, start as int) == index_of_newline(s@, k as int),
            decreases n - k,
        {
            k = k + 1;
        }
        if k == n {
            let line = copy_range(s, start, n);
            r.push(line);
            proof {
                assert(vviews(r@) =~= vviews(before).push(s@.subrange(start as int, n as int)));
                assert(spec_lines_from(s@, n as int) =~= Seq::<Seq<char>>::empty());
                assert(vviews(r@) + spec_lines_from(s@, n as int) =~= vviews(before) + spec_lines_from(
                    s@,
                    start as int,
                ));
            }
            start = n;
        } else {
            let mut end = k;
            if end > start && s[end - 1] == '\r' {
                end = end - 1;
            }
            let line = copy_range(s, start, end);
            r.push(line);
            proof {
                assert(line@ == strip_cr(s@.subrange(start as int, k as int))) by {
                    if k > start && s@[k - 1] == '\r' {
                        assert(s@.subrange(start as int, k as int).drop_last() =~= s@.subrange(
                            start as int,
                            (k - 1) as int,
                        ));
                    }
                }
                assert(vviews(r@) =~= vviews(before).push(line@));
                assert(vviews(r@) + spec_lines_from(s@, k + 1) =~= vviews(before) + spec_lines_from(
                    s@,
                    start as int,
                ));
            }
            start = k + 1;
        }
    }
    proof {
        assert(vviews(r@) + spec_lines_from(s@, start as int) =~= vviews(r@));
    }
    r
}

/// The lowercase hexadecimal digit for `d < 16`.
pub open spec fn hex_digit(d: nat) -> char {
    if d < 10 {
        ((48 + d) as u32) as char
    } else {
        ((87 + d) as u32) as char
    }
}

/// `n` in lowercase hexadecimal without leading zeros (`format!("{:x}")`).
pub open spec fn spec_hex(n: nat) -> Seq<char>
    decreases n,
{
    if n < 16 {
        seq![hex_digit(n)]
    } else {
        spec_hex(n / 16) + seq![hex_digit(n % 16)]
    }
}

/// Sixteen to the power `k`.
pub open spec fn pow16(k: nat) -> nat
    decreases k,
{
    if k == 0 {
        1
    } else {
        16 * pow16((k - 1) as nat)
    }
}

proof fn lemma_hex_digit_is_lower_hex(d: nat)
    requires
        d < 16,
    ensures
        is_lower_hex(hex_digit(d)),
{
}

/// A number's lowercase hexadecimal form is non-empty, uses only the digits
/// `0-9a-f`, and has at most `k` digits when the number is below `16^k`.
pub proof fn lemma_hex_shape(n: nat, k: nat)
    requires
        1 <= k,
        n < pow16(k),
    ensures
        1 <= spec_hex(n).len() <= k,
        forall|i: int| 0 <= i < spec_hex(n).len() ==> is_lower_hex(#[trigger] spec_hex(n)[i]),
    decreases n,
{
    if n < 16 {
        lemma_hex_digit_is_lower_hex(n);
    } else {
        let k1 = (k - 1) as nat;
        assert(pow16(1) == 16) by {
            reveal_with_fuel(pow16, 2);
        }
        assert(k >= 2);
        assert(pow16(k) == 16 * pow16(k1));
        assert(n / 16 < pow16(k1)) by (nonlinear_arith)
            requires
                n < 16 * pow16(k1),
        ;
        lemma_hex_shape(n / 16, k1);
        lemma_hex_digit_is_lower_hex(n % 16);
        let s = spec_hex(n);
        assert(s == spec_hex(n / 16) + seq![hex_digit(n % 16)]);
        assert forall|i: int| 0 <= i < s.len() implies is_lower_hex(#[trigger] s[i]) by {
            if i < spec_hex(n / 16).len() {
                assert(s[i] == spec_hex(n / 16)[i]);
            } else {
                assert(s[i] == hex_digit(n % 16));
            }
        }
    }
}

/// The lowercase hexadecimal form of a 64-bit number (what
/// `compute_file_hash` gives) is one to sixteen digits of `0-9a-f`.
pub proof fn lemma_hex_u64_shape(n: u64)
    ensures
        1 <= spec_hex(n as nat).len() <= 16,
        forall|i: int| 0 <= i < spec_hex(n as nat).len() ==> is_lower_hex(#[trigger] spec_hex(n as nat)[i]),
{
    assert(pow16(16) == 0x1_0000_0000_0000_0000) by {
        reveal_with_fuel(pow16, 17);
    }
    lemma_hex_shape(n as nat, 16);
}

fn hex_digit_char(d: u64) -> (c: char)
    requires
        d < 16,
    ensures
        c == hex_digit(d as nat),
{
    let table: [char; 16] = ['0', '1', '2', '3', '4', '5', '6', '7', '8', '9', 'a', 'b', 'c', 'd', 'e', 'f'];
    proof {
        assert(hex_digit(d as nat) == table[d as int]) by {
            assert(table@ == seq!['0', '1', '2', '3', '4', '5', '6', '7', '8', '9', 'a', 'b', 'c', 'd', 'e', 'f']);
            reveal_with_fuel(spec_hex, 1);
        }
    }
    table[d as usize]
}

/// `n` in lowercase hexadecimal without leading zeros.
pub fn hex_lower(n: u64) -> (s: String)
    ensures
        s@ == spec_hex(n as nat),
{
    let mut digits: Vec<char> = Vec::new();
    let mut m = n;
    while m >= 16
        invariant
            spec_hex(n as nat) == spec_hex(m as nat) + digits@,
        decreases m,
    {
        let ghost before = digits@;
        let d = m % 16;
        let c = hex_digit_char(d);
        let mut next: Vec<char> = Vec::new();
        next.push(c);
        let mut i: usize = 0;
        while i < digits.len()
            invariant
                i <= digits@.len(),
                next@ == seq![c] + digits@.take(i as int),
            decreases digits@.len() - i,
        {
            next.push(digits[i]);
            i = i + 1;
            proof {
                assert(next@ =~= seq![c] + digits@.take(i as int));
            }
        }
        proof {
            assert(digits@.take(digits@.len() as int) =~= digits@);
            assert(spec_hex(m as nat) == spec_hex((m / 16) as nat) + seq![hex_digit((m % 16) as nat)]);
            assert(spec_hex(n as nat) =~= spec_hex((m / 16) as nat) + next@);
        }
        digits = next;
        m = m / 16;
    }
    let c = hex_digit_char(m);
    let mut out: Vec<char> = Vec::new();
    out.push(c);
    let mut i: usize = 0;
    while i < digits.len()
        invariant
            i <= digits@.len(),
            out@ == seq![c] + digits@.take(i as int),
        decreases digits@.len() - i,
    {
        out.push(digits[i]);
        i = i + 1;
        proof {
            assert(out@ =~= seq![c] + digits@.take(i as int));
        }
    }
    proof {
        assert(digits@.take(digits@.len() as int) =~= digits@);
        assert(spec_hex(m as nat) == seq![hex_digit(m as nat)]);
    }
    string_from_chars(out.as_slice())
}

/// Whether `t` occurs in `s` at position `i`.
pub open spec fn occurs_at(s: Seq<char>, t: Seq<char>, i: int) -> bool {
    0 <= i && i + t.len() <= s.len() && s.subrange(i, i + t.len()) == t
}

/// Whether `t` occurs in `s`.
pub open spec fn contains_seq(s: Seq<char>, t: Seq<char>) -> bool {
    exists|i: int| occurs_at(s, t, i)
}

/// Whether `s` ends with `t`.
pub open spec fn ends_with_seq(s: Seq<char>, t: Seq<char>) -> bool {
    t.len() <= s.len() && s.subrange(s.len() - t.len(), s.len() as int) == t
}

fn matches_at(s: &[char], t: &[char], i: usize) -> (r: bool)
    requires
        i <= s@.len(),
    ensures
        r == occurs_at(s@, t@, i as int),
{
    let slen = s.len();
    if t.len() > slen - i {
        return false;
    }
    let mut j: usize = 0;
    while j < t.len()
        invariant
            slen == s@.len(),
            i + t@.len() <= s@.len(),
            j <= t@.len(),
            forall|k: int| 0 <= k < j ==> s@[i + k] == t@[k],
        decreases t@.len() - j,
    {
        if s[i + j] != t[j] {
            proof {
                assert(s@.subrange(i as int, i + t@.len())[j as int] != t@[j as int]);
            }
            return false;
        }
        j = j + 1;
    }
    proof {
        assert(s@.subrange(i as int, i + t@.len()) =~= t@);
    }
    true
}

/// Whether `t` occurs in `s`.
pub fn contains_chars(s: &[char], t: &[char]) -> (r: bool)
    ensures
        r == contains_seq(s@, t@),
{
    let mut i: usize = 0;
    while i < s.len()
        invariant
            i <= s@.len(),
            forall|k: int| 0 <= k < i ==> !occurs_at(s@, t@, k),
        decreases s@.len() - i,
    {
        if matches_at(s, t, i) {
            return true;
        }
        i = i + 1;
    }
    if matches_at(s, t, i) {
        return true;
    }
    proof {
        assert forall|k: int| !occurs_at(s@, t@, k) by {
            if 0 <= k && k <= i {
            }
        }
    }
    false
}

/// Whether `s` ends with `t`.
pub fn ends_with_chars(s: &[char], t: &[char]) -> (r: bool)
    ensures
        r == ends_with_seq(s@, t@),
{
    if t.len() > s.len() {
        return false;
    }
    matches_at(s, t, s.len() - t.len())
}

/// Whether `s` contains the string `t`.
pub fn str_contains(s: &str, t: &str) -> (r: bool)
    ensures
        r == contains_seq(s@, t@),
{
    let a = chars_of(s);
    let b = chars_of(t);
    contains_chars(a.as_slice(), b.as_slice())
}

/// Whether `s` ends with the string `t`.
pub fn str_ends_with(s: &str, t: &str) -> (r: bool)
    ensures
        r == ends_with_seq(s@, t@),
{
    let a = chars_of(s);
    let b = chars_of(t);
    ends_with_chars(a.as_slice(), b.as_slice())
}

/// Whether `s` starts with the string `t`.
pub fn str_starts_with(s: &str, t: &str) -> (r: bool)
    ensures
        r == (t@.len() <= s@.len() && s@.take(t@.len() as int) == t@),
{
    let a = chars_of(s);
    let b = chars_of(t);
    starts_with_chars(a.as_slice(), b.as_slice())
}

/// Length of the run of non-whitespace characters that starts `s`.
pub open spec fn word_len(s: Seq<char>) -> nat
    decreases s.len(),
{
    if s.len() == 0 || spec_is_whitespace(s[0]) {
        0
    } else {
        1 + word_len(s.drop_first())
    }
}

pub proof fn lemma_word_len(s: Seq<char>)
    ensures
        word_len(s) <= s.len(),
        forall|i: int| 0 <= i < word_len(s) ==> !spec_is_whitespace(#[trigger] s[i]),
        word_len(s) < s.len() ==> spec_is_whitespace(s[word_len(s) as int]),
    decreases s.len(),
{
    if s.len() > 0 && !spec_is_whitespace(s[0]) {
        lemma_word_len(s.drop_first());
        assert forall|i: int| 0 <= i < word_len(s) implies !spec_is_whitespace(#[trigger] s[i]) by {
            if i > 0 {
                assert(s[i] == s.drop_first()[i - 1]);
            }
        }
    }
}

/// The whitespace-separated words of `s` (`str::split_whitespace`).
pub open spec fn spec_words(s: Seq<char>) -> Seq<Seq<char>>
    decreases s.len(),
{
    let a = leading_ws(s);
    if a >= s.len() {
        seq![]
    } else {
        let rest = s.skip(a as int);
        let k = word_len(rest);
        proof {
            lemma_leading_ws(s);
            lemma_word_len(rest);
            assert(!spec_is_whitespace(rest[0]));
        }
        seq![rest.take(k as int)] + spec_words(rest.skip(k as int))
    }
}

/// Words joined with `sep`.
pub open spec fn spec_join(ws: Seq<Seq<char>>, sep: Seq<char>) -> Seq<char>
    decreases ws.len(),
{
    if ws.len() == 0 {
        seq![]
    } else if ws.len() == 1 {
        ws[0]
    } else {
        spec_join(ws.drop_last(), sep) + sep + ws.last()
    }
}

/// The words of `s`, in order.
pub fn words_of(s: &[char]) -> (r: Vec<Vec<char>>)
    ensures
        vviews(r@) == spec_words(s@),
{
    let n = s.len();
    let mut r: Vec<Vec<char>> = Vec::new();
    let mut i: usize = 0;
    proof {
        assert(s@.skip(0) =~= s@);
        assert(vviews(r@) + spec_words(s@.skip(0)) =~= spec_words(s@));
    }
    while i < n
        invariant
            n == s@.len(),
            i <= n,
            vviews(r@) + spec_words(s@.skip(i as int)) == spec_words(s@),
        decreases n - i,
    {
        let ghost before = r@;
        let ghost cur = s@.skip(i as int);
        let mut a: usize = i;
        proof {
            lemma_leading_ws(cur);
        }
        while a < n && is_whitespace(s[a])
            invariant
                i <= a <= n,
                n == s@.len(),
                cur == s@.skip(i as int),
                a - i <= leading_ws(cur),
                leading_ws(cur) <= cur.len(),
                leading_ws(cur) < cur.len() ==> !spec_is_whitespace(cur[leading_ws(cur) as int]),
                forall|j: int| 0 <= j < leading_ws(cur) ==> spec_is_whitespace(#[trigger] cur[j]),
            decreases n - a,
        {
            proof {
                if a - i == leading_ws(cur) {
                    assert(cur[a - i] == s@[a as int]);
                }
            }
            a = a + 1;
        }
        proof {
            if a < n && a - i < leading_ws(cur) {
                assert(cur[a - i] == s@[a as int]);
            }
        }
        if a == n {
            proof {
                assert(leading_ws(cur) >= cur.len());
                assert(spec_words(cur) =~= Seq::<Seq<char>>::empty());
                assert(s@.skip(n as int) =~= Seq::<char>::empty());
                assert(spec_words(s@.skip(n as int)) =~= Seq::<Seq<char>>::empty());
            }
            i = n;
        } else {
            let ghost rest = cur.skip(leading_ws(cur) as int);
            proof {
                assert(rest =~= s@.skip(a as int));
                lemma_word_len(rest);
            }
            let mut b: usize = a;
            while b < n && !is_whitespace(s[b])
                invariant
                    a <= b <= n,
                    n == s@.len(),
                    rest == s@.skip(a as int),
                    b - a <= word_len(rest),
                    word_len(rest) <= rest.len(),
                    word_len(rest) < rest.len() ==> spec_is_whitespace(rest[word_len(rest) as int]),
                    forall|j: int| 0 <= j < word_len(rest) ==> !spec_is_whitespace(#[trigger] rest[j]),
                decreases n - b,
            {
                proof {
                    if b - a == word_len(rest) {
                        assert(rest[b - a] == s@[b as int]);
                    }
                }
                b = b + 1;
            }
            proof {
                if b < n && b - a < word_len(rest) {
                    assert(rest[b - a] == s@[b as int]);
                }
            }
            let w = copy_range(s, a, b);
            r.push(w);
            proof {
                assert(w@ =~= rest.take(word_len(rest) as int));
                assert(rest.skip(word_len(rest) as int) =~= s@.skip(b as int));
                assert(vviews(r@) =~= vviews(before).push(w@));
                assert(spec_words(cur) == seq![rest.take(word_len(rest) as int)] + spec_words(
                    rest.skip(word_len(rest) as int),
                ));
                assert(vviews(r@) + spec_words(s@.skip(b as int)) =~= vviews(before) + spec_words(cur));
            }
            i = b;
        }
    }
    proof {
        assert(s@.skip(n as int) =~= Seq::<char>::empty());
        assert(vviews(r@) + spec_words(s@.skip(n as int)) =~= vviews(r@));
    }
    r
}

/// The strings joined with `sep`.
pub fn join_chars(parts: &Vec<Vec<char>>, sep: &[char]) -> (r: Vec<char>)
    ensures
        r@ == spec_join(vviews(parts@), sep@),
{
    let ghost ps = vviews(parts@);
    let mut r: Vec<char> = Vec::new();
    let mut i: usize = 0;
    while i < parts.len()
        invariant
            i <= parts@.len(),
            ps == vviews(parts@),
            r@ == spec_join(ps.take(i as int), sep@),
        decreases parts@.len() - i,
    {
        let ghost before = r@;
        if i > 0 {
            let mut k: usize = 0;
            while k < sep.len()
                invariant
                    k <= sep@.len(),
                    r@ == before + sep@.take(k as int),
                decreases sep@.len() - k,
            {
                r.push(sep[k]);
                k = k + 1;
                proof {
                    assert(r@ =~= before + sep@.take(k as int));
                }
            }
            proof {
                assert(sep@.take(sep@.len() as int) =~= sep@);
            }
        }
        let ghost mid = r@;
        let part = &parts[i];
        let mut k: usize = 0;
        while k < part.len()
            invariant
                k <= part@.len(),
                r@ == mid + part@.take(k as int),
            decreases part@.len() - k,
        {
            r.push(part[k]);
            k = k + 1;
            proof {
                assert(r@ =~= mid + part@.take(k as int));
            }
        }
        proof {
            assert(part@.take(part@.len() as int) =~= part@);
            assert(ps[i as int] == part@);
            let sub = ps.take(i as int + 1);
            assert(sub.drop_last() =~= ps.take(i as int));
            assert(sub.last() == ps[i as int]);
            if i == 0 {
                assert(sub.len() == 1);
                assert(r@ =~= part@);
            } else {
                assert(r@ =~= before + sep@ + part@);
            }
        }
        i = i + 1;
    }
    proof {
        assert(ps.take(parts@.len() as int) =~= ps);
    }
    r
}

/// The words of `text` joined by single spaces.
pub open spec fn spec_normalize_whitespace(text: Seq<char>) -> Seq<char> {
    spec_join(spec_words(text), seq![' '])
}

/// Collapses runs of whitespace into single spaces and trims the ends.
pub fn normalize_whitespace(text: &str) -> (r: String)
    ensures
        r@ == spec_normalize_whitespace(text@),
{
    let chars = chars_of(text);
    let words = words_of(chars.as_slice());
    let mut sep: Vec<char> = Vec::new();
    sep.push(' ');
    proof {
        assert(sep@ =~= seq![' ']);
    }
    let joined = join_chars(&words, sep.as_slice());
    string_from_chars(joined.as_slice())
}

/// The decimal digit for `d < 10`.
pub open spec fn dec_digit(d: nat) -> char {
    ((48 + d) as u32) as char
}

/// `n` in decimal without leading zeros (`format!("{}")`).
pub open spec fn spec_dec(n: nat) -> Seq<char>
    decreases n,
{
    if n < 10 {
        seq![dec_digit(n)]
    } else {
        spec_dec(n / 10) + seq![dec_digit(n % 10)]
    }
}

fn dec_digit_char(d: u64) -> (c: char)
    requires
        d < 10,
    ensures
        c == dec_digit(d as nat),
{
    let table: [char; 10] = ['0', '1', '2', '3', '4', '5', '6', '7', '8', '9'];
    proof {
        assert(table@ == seq!['0', '1', '2', '3', '4', '5', '6', '7', '8', '9']);
    }
    table[d as usize]
}

/// `n` in decimal.
pub fn dec_string(n: u64) -> (s: String)
    ensures
        s@ == spec_dec(n as nat),
{
    let mut digits: Vec<char> = Vec::new();
    let mut m = n;
    while m >= 10
        invariant
            spec_dec(n as nat) == spec_dec(m as nat) + digits@,
        decreases m,
    {
        let c = dec_digit_char(m % 10);
        let mut next: Vec<char> = Vec::new();
        next.push(c);
        let mut i: usize = 0;
        while i < digits.len()
            invariant
                i <= digits@.len(),
                next@ == seq![c] + digits@.take(i as int),
            decreases digits@.len() - i,
        {
            next.push(digits[i]);
            i = i + 1;
            proof {
                assert(next@ =~= seq![c] + digits@.take(i as int));
            }
        }
        proof {
            assert(digits@.take(digits@.len() as int) =~= digits@);
            assert(spec_dec(m as nat) == spec_dec((m / 10) as nat) + seq![dec_digit((m % 10) as nat)]);
            assert(spec_dec(n as nat) =~= spec_dec((m / 10) as nat) + next@);
        }
        digits = next;
        m = m / 10;
    }
    let c = dec_digit_char(m);
    let mut out: Vec<char> = Vec::new();
    out.push(c);
    let mut i: usize = 0;
    while i < digits.len()
        invariant
            i <= digits@.len(),
            out@ == seq![c] + digits@.take(i as int),
        decreases digits@.len() - i,
    {
        out.push(digits[i]);
        i = i + 1;
        proof {
            assert(out@ =~= seq![c] + digits@.take(i as int));
        }
    }
    proof {
        assert(digits@.take(digits@.len() as int) =~= digits@);
    }
    string_from_chars(out.as_slice())
}

/// `n` in decimal.
pub fn usize_dec_string(n: usize) -> (s: String)
    ensures
        s@ == spec_dec(n as nat),
{
    dec_string(n as u64)
}

/// The first position of `c` in `s` at or after `from`.
pub open spec fn index_of_char(s: Seq<char>, c: char, from: int) -> Option<int>
    decreases s.len() - from,
{
    if from < 0 || from >= s.len() {
        None
    } else if s[from] == c {
        Some(from)
    } else {
        index_of_char(s, c, from + 1)
    }
}

pub proof fn lemma_index_of_char(s: Seq<char>, c: char, from: int)
    requires
        0 <= from,
    ensures
        index_of_char(s, c, from) matches Some(k) ==> from <= k < s.len() && s[k] == c,
    decreases s.len() - from,
{
    if 0 <= from < s.len() && s[from] != c {
        lemma_index_of_char(s, c, from + 1);
    }
}

/// The position of the first `c` in `s` at or after `from`, computed.
pub fn find_char_from(s: &[char], c: char, from: usize) -> (r: Option<usize>)
    requires
        from <= s@.len(),
    ensures
        match r {
            Some(k) => index_of_char(s@, c, from as int) == Some(k as int),
            None => index_of_char(s@, c, from as int) is None,
        },
{
    let mut k: usize = from;
    while k < s.len()
        invariant
            from <= k <= s@.len(),
            index_of_char(s@, c, from as int) == index_of_char(s@, c, k as int),
        decreases s@.len() - k,
    {
        if s[k] == c {
            return Some(k);
        }
        k = k + 1;
    }
    None
}

/// The first position at or after `from` where `t` occurs in `s`.
pub open spec fn find_seq_from(s: Seq<char>, t: Seq<char>, from: int) -> Option<int>
    decreases s.len() + 1 - from,
{
    if from < 0 || from + t.len() > s.len() {
        None
    } else if s.subrange(from, from + t.len()) == t {
        Some(from)
    } else {
        find_seq_from(s, t, from + 1)
    }
}

pub proof fn lemma_find_seq_from(s: Seq<char>, t: Seq<char>, from: int)
    requires
        0 <= from,
    ensures
        find_seq_from(s, t, from) matches Some(k) ==> from <= k && k + t.len() <= s.len()
            && s.subrange(k, k + t.len()) == t,
    decreases s.len() + 1 - from,
{
    if from + t.len() <= s.len() && s.subrange(from, from + t.len()) != t {
        lemma_find_seq_from(s, t, from + 1);
    }
}

/// The first position at or after `from` where `t` occurs in `s`, computed.
#[verifier::spinoff_prover]
pub fn find_chars_from(s: &[char], t: &[char], from: usize) -> (r: Option<usize>)
    requires
        from <= s@.len(),
    ensures
        match r {
            Some(k) => find_seq_from(s@, t@, from as int) == Some(k as int),
            None => find_seq_from(s@, t@, from as int) is None,
        },
{
    if t.len() > s.len() {
        return None;
    }
    let last: usize = s.len() - t.len();
    let mut i: usize = from;
    while i <= last
        invariant
            last == s@.len() - t@.len(),
            from <= i,
            find_seq_from(s@, t@, from as int) == find_seq_from(s@, t@, i as int),
        decreases last + 1 - i,
    {
        if matches_at(s, t, i) {
            return Some(i);
        }
        if i == last {
            return None;
        }
        i = i + 1;
    }
    None
}

/// The piece of `s` that `s.split(sep).nth(1)` gives: the text after the
/// first `sep` up to the next `sep` or the end; none without a `sep`.
pub open spec fn spec_split_second(s: Seq<char>, sep: Seq<char>) -> Option<Seq<char>> {
    match find_seq_from(s, sep, 0) {
        None => None,
        Some(k) => {
            let rest = s.skip(k + sep.len());
            match find_seq_from(rest, sep, 0) {
                None => Some(rest),
                Some(j) => Some(rest.take(j)),
            }
        },
    }
}

/// `s.split(sep).nth(1)`, for a non-empty separator.
pub fn split_second(s: &[char], sep: &[char]) -> (r: Option<Vec<char>>)
    requires
        sep@.len() > 0,
    ensures
        match r {
            Some(v) => spec_split_second(s@, sep@) == Some(v@),
            None => spec_split_second(s@, sep@) is None,
        },
{
    let k = match find_chars_from(s, sep, 0) {
        Some(k) => k,
        None => {
            return None;
        },
    };
    proof {
        lemma_find_seq_from(s@, sep@, 0);
    }
    let s_len: usize = s.len();
    let start: usize = k + sep.len();
    let rest = copy_range(s, start, s_len);
    proof {
        assert(rest@ =~= s@.skip(k + sep@.len()));
    }
    match find_chars_from(&rest, sep, 0) {
        None => Some(rest),
        Some(j) => {
            proof {
                lemma_find_seq_from(rest@, sep@, 0);
            }
            let piece = copy_range(&rest, 0, j);
            proof {
                assert(piece@ =~= rest@.take(j as int));
            }
            Some(piece)
        },
    }
}

/// The views of a list of strings.
pub open spec fn string_views(v: Seq<String>) -> Seq<Seq<char>> {
    v.map_values(|s: String| s@)
}

/// The strings joined with `sep`.
pub fn join_strings(parts: &Vec<String>, sep: &str) -> (r: String)
    ensures
        r@ == spec_join(string_views(parts@), sep@),
{
    let mut chars: Vec<Vec<char>> = Vec::new();
    let mut i: usize = 0;
    while i < parts.len()
        invariant
            i <= parts@.len(),
            chars@.len() == i,
            forall|j: int| 0 <= j < i ==> #[trigger] chars@[j]@ == parts@[j]@,
        decreases parts@.len() - i,
    {
        chars.push(chars_of(parts[i].as_str()));
        i = i + 1;
    }
    proof {
        assert(vviews(chars@) =~= string_views(parts@));
    }
    let sep_chars = chars_of(sep);
    let joined = join_chars(&chars, &sep_chars);
    string_from_chars(&joined)
}

/// Whether the first `n` bytes of `s` end on a character boundary (always
/// so when `s` is no longer than `n` bytes).
pub open spec fn cuts_cleanly(s: Seq<char>, n: nat) -> bool {
    utf8_len(s) <= n || exists|k: int| 0 <= k <= s.len() && utf8_len(#[trigger] s.take(k)) == n
}

/// `s` cut to its first `n` bytes, as `String::truncate` cuts it (meant
/// where the cut is clean).
pub open spec fn byte_truncate(s: Seq<char>, n: nat) -> Seq<char> {
    if utf8_len(s) <= n {
        s
    } else {
        s.take(choose|k: int| 0 <= k <= s.len() && utf8_len(#[trigger] s.take(k)) == n)
    }
}

pub proof fn lemma_utf8_len_take_strict(s: Seq<char>, i: int, j: int)
    requires
        0 <= i < j <= s.len(),
    ensures
        utf8_len(s.take(i)) < utf8_len(s.take(j)),
{
    assert(s.take(i + 1) =~= s.take(i).push(s[i]));
    lemma_utf8_len_push(s.take(i), s[i]);
    lemma_utf8_len_take_mono(s, i + 1, j);
}

/// `s` cut to its first `n` bytes, or none where that cut would fall inside
/// a character (where `String::truncate` panics).
pub fn truncate_bytes(s: &str, n: usize) -> (r: Option<String>)
    ensures
        r is Some <==> cuts_cleanly(s@, n as nat),
        r matches Some(t) ==> t@ == byte_truncate(s@, n as nat),
{
    let chars = chars_of(s);
    let mut total: usize = 0;
    let mut k: usize = 0;
    while k < chars.len() && char_width(chars[k]) <= n - total
        invariant
            k <= chars@.len(),
            chars@ == s@,
            total <= n,
            total == utf8_len(s@.take(k as int)),
        decreases chars@.len() - k,
    {
        let w = char_width(chars[k]);
        proof {
            assert(s@.take(k + 1) =~= s@.take(k as int).push(s@[k as int]));
            lemma_utf8_len_push(s@.take(k as int), s@[k as int]);
        }
        total = total + w;
        k = k + 1;
    }
    if k == chars.len() {
        proof {
            assert(s@.take(k as int) =~= s@);
        }
        return Some(string_from_chars(&chars));
    }
    proof {
        assert(s@.take(k + 1) =~= s@.take(k as int).push(s@[k as int]));
        lemma_utf8_len_push(s@.take(k as int), s@[k as int]);
        lemma_utf8_len_take_mono(s@, k + 1, s@.len() as int);
        assert(s@.take(s@.len() as int) =~= s@);
    }
    if total == n {
        let prefix = copy_range(&chars, 0, k);
        proof {
            assert(prefix@ =~= s@.take(k as int));
            assert(utf8_len(s@.take(k as int)) == n);
            let c = choose|c: int| 0 <= c <= s@.len() && utf8_len(#[trigger] s@.take(c)) == n;
            if c < k {
                lemma_utf8_len_take_strict(s@, c, k as int);
            } else if c > k {
                lemma_utf8_len_take_strict(s@, k as int, c);
            }
        }
        Some(string_from_chars(&prefix))
    } else {
        proof {
            assert forall|c: int| 0 <= c <= s@.len() implies utf8_len(#[trigger] s@.take(c)) != n by {
                if c <= k {
                    lemma_utf8_len_take_mono(s@, c, k as int);
                } else {
                    lemma_utf8_len_take_mono(s@, k + 1, c);
                }
            }
        }
        None
    }
}


/// A number written in decimal reads back as itself: its form is a
/// non-empty run of decimal digits, without a leading zero unless the
/// number is zero, whose value is the number.
pub proof fn lemma_dec_reads_back(n: nat)
    ensures
        spec_dec(n).len() >= 1,
        crate::cdp::all_digits(spec_dec(n)),
        crate::cdp::digits_value(spec_dec(n)) == n,
        n > 0 ==> spec_dec(n)[0] != '0',
    decreases n,
{
    if n < 10 {
        let s = spec_dec(n);
        assert(s.drop_last() =~= Seq::<char>::empty());
        assert(s[0] == dec_digit(n));
        assert((dec_digit(n) as u32) == 48 + n);
        assert(crate::cdp::digits_value(s) == crate::cdp::digits_value(s.drop_last()) * 10 + ((s.last() as u32) - 48) as nat);
    } else {
        lemma_dec_reads_back(n / 10);
        let s = spec_dec(n / 10);
        let t = spec_dec(n);
        assert(t == s + seq![dec_digit(n % 10)]);
        assert(t.drop_last() =~= s);
        assert(t.last() == dec_digit(n % 10));
        assert((dec_digit(n % 10) as u32) == 48 + n % 10);
        assert(crate::cdp::digits_value(t) == crate::cdp::digits_value(s) * 10 + n % 10);
        assert((n / 10) * 10 + n % 10 == n);
        assert(t[0] == s[0]);
        assert forall|i: int| 0 <= i < t.len() implies '0' <= #[trigger] t[i] <= '9' by {
            if i < s.len() {
                assert(t[i] == s[i]);
            }
        }
    }
}

} // verus!
