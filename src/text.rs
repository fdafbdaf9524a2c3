//! Character-level text primitives with exact specifications: searching,
//! trimming, splitting into lines and reading decimal integers.
use vstd::prelude::*;

verus! {

/// The characters that Unicode classes as white space (`char::is_whitespace`).
pub open spec fn is_space(c: char) -> bool {
    let u = c as u32;
    (0x09 <= u && u <= 0x0D) || u == 0x20 || u == 0x85 || u == 0xA0 || u == 0x1680
        || (0x2000 <= u && u <= 0x200A) || u == 0x2028 || u == 0x2029 || u == 0x202F
        || u == 0x205F || u == 0x3000
}

pub fn char_is_space(c: char) -> (r: bool)
    ensures
        r == is_space(c),
{
    let u = c as u32;
    (0x09 <= u && u <= 0x0D) || u == 0x20 || u == 0x85 || u == 0xA0 || u == 0x1680
        || (0x2000 <= u && u <= 0x200A) || u == 0x2028 || u == 0x2029 || u == 0x202F
        || u == 0x205F || u == 0x3000
}

/// Index of the first `c` at or after `i`, or `s.len()` when there is none.
pub open spec fn find_from(s: Seq<char>, c: char, i: int) -> int
    decreases s.len() - i,
{
    if i < 0 || i >= s.len() {
        s.len() as int
    } else if s[i] == c {
        i
    } else {
        find_from(s, c, i + 1)
    }
}

/// Index of the last `c` before `j`, or -1 when there is none.
pub open spec fn rfind_before(s: Seq<char>, c: char, j: int) -> int
    decreases j,
{
    if j <= 0 {
        -1
    } else if s[j - 1] == c {
        j - 1
    } else {
        rfind_before(s, c, j - 1)
    }
}

pub proof fn lemma_find_from(s: Seq<char>, c: char, i: int)
    requires
        0 <= i <= s.len(),
    ensures
        i <= find_from(s, c, i) <= s.len(),
        find_from(s, c, i) < s.len() ==> s[find_from(s, c, i)] == c,
        forall|k: int| i <= k < find_from(s, c, i) ==> s[k] != c,
    decreases s.len() - i,
{
    if i < s.len() && s[i] != c {
        lemma_find_from(s, c, i + 1);
    }
}

pub proof fn lemma_rfind_before(s: Seq<char>, c: char, j: int)
    requires
        0 <= j <= s.len(),
    ensures
        -1 <= rfind_before(s, c, j) < j,
        rfind_before(s, c, j) >= 0 ==> s[rfind_before(s, c, j)] == c,
        forall|k: int| rfind_before(s, c, j) < k < j ==> s[k] != c,
    decreases j,
{
    if j > 0 && s[j - 1] != c {
        lemma_rfind_before(s, c, j - 1);
    }
}

/// Position of the first `c` in `s` at or after `i`, or the length of `s`.
pub fn find_char(s: &str, c: char, i: usize) -> (r: usize)
    requires
        i <= s@.len(),
    ensures
        r as int == find_from(s@, c, i as int),
        i <= r <= s@.len(),
{
    let n = s.unicode_len();
    let mut j = i;
    while j < n && s.get_char(j) != c
        invariant
            n == s@.len(),
            i <= j <= n,
            find_from(s@, c, i as int) == find_from(s@, c, j as int),
        decreases n - j,
    {
        j = j + 1;
    }
    j
}

/// Position of the last `c` in `s`, if any.
pub fn rfind_char(s: &str, c: char) -> (r: Option<usize>)
    ensures
        match r {
            Some(k) => k as int == rfind_before(s@, c, s@.len() as int),
            None => rfind_before(s@, c, s@.len() as int) == -1,
        },
{
    let n = s.unicode_len();
    let mut j = n;
    while j > 0 && s.get_char(j - 1) != c
        invariant
            n == s@.len(),
            j <= n,
            rfind_before(s@, c, n as int) == rfind_before(s@, c, j as int),
        decreases j,
    {
        j = j - 1;
    }
    if j == 0 {
        None
    } else {
        Some(j - 1)
    }
}

/// Index of the first white-space character at or after `i`, or `s.len()`.
pub open spec fn find_space_from(s: Seq<char>, i: int) -> int
    decreases s.len() - i,
{
    if i < 0 || i >= s.len() {
        s.len() as int
    } else if is_space(s[i]) {
        i
    } else {
        find_space_from(s, i + 1)
    }
}

/// Position of the first white-space character of `s`, or its length.
pub fn find_space(s: &str) -> (r: usize)
    ensures
        r as int == find_space_from(s@, 0),
        r <= s@.len(),
{
    let n = s.unicode_len();
    let mut j: usize = 0;
    while j < n && !char_is_space(s.get_char(j))
        invariant
            n == s@.len(),
            j <= n,
            find_space_from(s@, 0) == find_space_from(s@, j as int),
        decreases n - j,
    {
        j = j + 1;
    }
    j
}

/// Whether `c` is stripped by a trim that removes white space (`None`) or one
/// given character.
pub open spec fn strips(c: char, m: Option<char>) -> bool {
    match m {
        None => is_space(c),
        Some(d) => c == d,
    }
}

pub open spec fn trim_start_by(s: Seq<char>, m: Option<char>) -> Seq<char>
    decreases s.len(),
{
    if s.len() > 0 && strips(s[0], m) {
        trim_start_by(s.skip(1), m)
    } else {
        s
    }
}

pub open spec fn trim_end_by(s: Seq<char>, m: Option<char>) -> Seq<char>
    decreases s.len(),
{
    if s.len() > 0 && strips(s.last(), m) {
        trim_end_by(s.drop_last(), m)
    } else {
        s
    }
}

/// `s` without the leading and trailing characters that `m` strips.
pub open spec fn trim_by(s: Seq<char>, m: Option<char>) -> Seq<char> {
    trim_end_by(trim_start_by(s, m), m)
}

/// `s` without leading and trailing white space (`str::trim`).
pub open spec fn trim(s: Seq<char>) -> Seq<char> {
    trim_by(s, None)
}

fn char_strips(c: char, m: Option<char>) -> (r: bool)
    ensures
        r == strips(c, m),
{
    match m {
        None => char_is_space(c),
        Some(d) => c == d,
    }
}

/// Removes from both ends of `s` the characters that `m` strips.
pub fn trim_str_by(s: &str, m: Option<char>) -> (r: &str)
    ensures
        r@ == trim_by(s@, m),
{
    let n = s.unicode_len();
    let mut i: usize = 0;
    assert(s@.skip(0) =~= s@);
    while i < n && char_strips(s.get_char(i), m)
        invariant
            n == s@.len(),
            i <= n,
            trim_start_by(s@, m) == trim_start_by(s@.skip(i as int), m),
        decreases n - i,
    {
        assert(s@.skip(i as int).skip(1) =~= s@.skip(i as int + 1));
        i = i + 1;
    }
    assert(trim_start_by(s@, m) == s@.subrange(i as int, n as int)) by {
        assert(s@.skip(i as int) =~= s@.subrange(i as int, n as int));
    }
    let mut j: usize = n;
    while j > i && char_strips(s.get_char(j - 1), m)
        invariant
            n == s@.len(),
            i <= j <= n,
            trim_by(s@, m) == trim_end_by(s@.subrange(i as int, j as int), m),
        decreases j,
    {
        assert(s@.subrange(i as int, j as int).drop_last() =~= s@.subrange(i as int, j as int - 1));
        j = j - 1;
    }
    s.substring_char(i, j)
}

/// Removes trailing white space.
pub fn trim_end_str(s: &str) -> (r: &str)
    ensures
        r@ == trim_end_by(s@, None),
{
    let n = s.unicode_len();
    let mut j: usize = n;
    assert(s@.subrange(0, n as int) =~= s@);
    while j > 0 && char_is_space(s.get_char(j - 1))
        invariant
            n == s@.len(),
            j <= n,
            trim_end_by(s@, None) == trim_end_by(s@.subrange(0, j as int), None),
        decreases j,
    {
        assert(s@.subrange(0, j as int).drop_last() =~= s@.subrange(0, j as int - 1));
        j = j - 1;
    }
    s.substring_char(0, j)
}

/// Removes leading and trailing white space.
pub fn trim_str(s: &str) -> (r: &str)
    ensures
        r@ == trim(s@),
{
    trim_str_by(s, None)
}

/// Index of the first occurrence of `p` in `s` at or after `i`, or -1.
pub open spec fn find_seq_from(s: Seq<char>, p: Seq<char>, i: int) -> int
    decreases s.len() + 1 - i,
{
    if i < 0 || i + p.len() > s.len() {
        -1
    } else if s.subrange(i, i + p.len()) == p {
        i
    } else {
        find_seq_from(s, p, i + 1)
    }
}

/// Whether `p` occurs in `s` (`str::contains`).
pub open spec fn contains(s: Seq<char>, p: Seq<char>) -> bool {
    find_seq_from(s, p, 0) >= 0
}

/// Whether `s` begins with `p` (`str::starts_with`).
pub open spec fn starts_with(s: Seq<char>, p: Seq<char>) -> bool {
    p.len() <= s.len() && s.take(p.len() as int) == p
}

/// Whether `p` occurs in `s` at position `k`.
pub fn matches_at(s: &str, p: &str, k: usize) -> (r: bool)
    ensures
        r == (k + p@.len() <= s@.len() && s@.subrange(k as int, k + p@.len()) == p@),
{
    let n = s.unicode_len();
    let m = p.unicode_len();
    if k > n || m > n - k {
        return false;
    }
    let mut t: usize = 0;
    while t < m
        invariant
            n == s@.len(),
            m == p@.len(),
            k + m <= n,
            t <= m,
            forall|u: int| 0 <= u < t ==> s@[k + u] == p@[u],
        decreases m - t,
    {
        if s.get_char(k + t) != p.get_char(t) {
            assert(s@.subrange(k as int, k + m)[t as int] != p@[t as int]);
            return false;
        }
        t = t + 1;
    }
    assert(s@.subrange(k as int, k + m) =~= p@);
    true
}

pub proof fn lemma_find_seq_from(s: Seq<char>, p: Seq<char>, i: int)
    requires
        0 <= i,
    ensures
        find_seq_from(s, p, i) == -1 || (i <= find_seq_from(s, p, i) && find_seq_from(s, p, i)
            + p.len() <= s.len()),
    decreases s.len() + 1 - i,
{
    if i + p.len() <= s.len() && s.subrange(i, i + p.len()) != p {
        lemma_find_seq_from(s, p, i + 1);
    }
}

/// Position of the first occurrence of `p` in `s` at or after `i`, if any.
pub fn find_str(s: &str, p: &str, i: usize) -> (r: Option<usize>)
    ensures
        match r {
            Some(k) => k as int == find_seq_from(s@, p@, i as int),
            None => find_seq_from(s@, p@, i as int) == -1,
        },
{
    let n = s.unicode_len();
    let m = p.unicode_len();
    let mut k = i;
    while k <= n && m <= n - k
        invariant
            n == s@.len(),
            m == p@.len(),
            i <= k,
            find_seq_from(s@, p@, i as int) == find_seq_from(s@, p@, k as int),
        decreases n + 1 - k,
    {
        assert(m == 0 ==> s@.subrange(k as int, k as int) =~= p@);
        if matches_at(s, p, k) {
            return Some(k);
        }
        k = k + 1;
    }
    None
}

/// Whether `p` occurs in `s`.
pub fn contains_str(s: &str, p: &str) -> (r: bool)
    ensures
        r == contains(s@, p@),
{
    match find_str(s, p, 0) {
        Some(_) => {
            proof {
                lemma_find_seq_from(s@, p@, 0);
            }
            true
        },
        None => false,
    }
}

/// Whether `a` and `b` hold the same characters.
pub fn text_eq(a: &str, b: &str) -> (r: bool)
    ensures
        r == (a@ == b@),
{
    if a.unicode_len() != b.unicode_len() {
        return false;
    }
    assert(a@.subrange(0, b@.len() as int) =~= a@);
    matches_at(a, b, 0)
}

/// Whether `s` begins with `p`.
pub fn starts_with_str(s: &str, p: &str) -> (r: bool)
    ensures
        r == starts_with(s@, p@),
{
    let r = matches_at(s, p, 0);
    assert(s@.subrange(0, p@.len() as int) =~= s@.take(p@.len() as int));
    r
}

/// A line without the carriage return that ends it, if any.
pub open spec fn strip_cr(l: Seq<char>) -> Seq<char> {
    if l.len() > 0 && l.last() == '\r' {
        l.drop_last()
    } else {
        l
    }
}

/// The lines of `s`, as `str::lines` yields them: split at each newline, a
/// carriage return before the newline dropped, and no empty line after a
/// final newline.
pub open spec fn lines(s: Seq<char>) -> Seq<Seq<char>>
    decreases s.len(),
    via lines_decreases
{
    if s.len() == 0 {
        seq![]
    } else if find_from(s, '\n', 0) >= s.len() {
        seq![s]
    } else {
        seq![strip_cr(s.take(find_from(s, '\n', 0)))] + lines(s.skip(find_from(s, '\n', 0) + 1))
    }
}

#[via_fn]
proof fn lines_decreases(s: Seq<char>) {
    lemma_find_from(s, '\n', 0);
}

pub open spec fn views(v: Seq<String>) -> Seq<Seq<char>> {
    v.map_values(|l: String| l@)
}

/// Splits `text` into its lines.
pub fn split_lines(text: &str) -> (r: Vec<String>)
    ensures
        views(r@) == lines(text@),
{
    let mut out: Vec<String> = Vec::new();
    let mut rest: &str = text;
    loop
        invariant
            lines(text@) == views(out@) + lines(rest@),
        decreases rest@.len(),
    {
        let ghost before = out@;
        let n = rest.unicode_len();
        if n == 0 {
            assert(views(out@) + lines(rest@) =~= views(out@));
            return out;
        }
        let e = find_char(rest, '\n', 0);
        if e >= n {
            out.push(String::from_str(rest));
            assert(views(out@) =~= views(before).push(rest@));
            assert(views(before) + lines(rest@) =~= views(out@));
            return out;
        }
        let raw = rest.substring_char(0, e);
        let m = raw.unicode_len();
        let line = if m > 0 && raw.get_char(m - 1) == '\r' {
            raw.substring_char(0, m - 1)
        } else {
            raw
        };
        assert(raw@ =~= rest@.take(e as int));
        assert(line@ == strip_cr(rest@.take(e as int))) by {
            if m > 0 {
                assert(raw@.subrange(0, m - 1) =~= raw@.drop_last());
            }
        }
        out.push(String::from_str(line));
        assert(views(out@) =~= views(before).push(line@));
        let next = rest.substring_char(e + 1, n);
        assert(next@ =~= rest@.skip(e + 1));
        assert(views(before) + lines(rest@) =~= views(out@) + lines(next@));
        rest = next;
    }
}

/// Whether `c` is an ASCII decimal digit.
pub open spec fn is_digit(c: char) -> bool {
    '0' <= c && c <= '9'
}

pub open spec fn digit_value(c: char) -> int {
    (c as u32) as int - 48
}

/// The number that a string of decimal digits denotes.
pub open spec fn digits_value(s: Seq<char>) -> int
    decreases s.len(),
{
    if s.len() == 0 {
        0
    } else {
        digits_value(s.drop_last()) * 10 + digit_value(s.last())
    }
}

/// Whether `d` consists of decimal digits only.
pub open spec fn all_digits(d: Seq<char>) -> bool {
    forall|k: int| 0 <= k < d.len() ==> is_digit(d[k])
}

/// `s` without a leading sign character.
pub open spec fn unsigned_part(s: Seq<char>) -> Seq<char> {
    if s.len() > 0 && (s[0] == '-' || s[0] == '+') {
        s.skip(1)
    } else {
        s
    }
}

/// The integer that `s` denotes as `i64::from_str` reads it: an optional sign,
/// then one or more decimal digits, with a value that fits in 64 bits.
pub open spec fn parse_int(s: Seq<char>) -> Option<int> {
    let d = unsigned_part(s);
    let v = if s.len() > 0 && s[0] == '-' { -digits_value(d) } else { digits_value(d) };
    if d.len() > 0 && all_digits(d) && i64::MIN <= v && v <= i64::MAX {
        Some(v)
    } else {
        None
    }
}

proof fn lemma_digits_value_grows(d: Seq<char>, k: int)
    requires
        0 <= k <= d.len(),
        forall|j: int| 0 <= j < d.len() ==> is_digit(d[j]),
    ensures
        0 <= digits_value(d.take(k)) <= digits_value(d),
    decreases d.len(),
{
    if d.len() > 0 {
        let e = d.drop_last();
        if k == d.len() {
            assert(d.take(k) =~= d);
            lemma_digits_value_grows(e, 0);
        } else {
            assert(e.take(k) =~= d.take(k));
            lemma_digits_value_grows(e, k);
        }
    } else {
        assert(d.take(k) =~= d);
    }
}

/// Reads a decimal `i64`.
pub fn parse_i64(s: &str) -> (r: Option<i64>)
    ensures
        match r {
            Some(v) => parse_int(s@) == Some(v as int),
            None => parse_int(s@) is None,
        },
{
    let n = s.unicode_len();
    if n == 0 {
        return None;
    }
    let c0 = s.get_char(0);
    let neg = c0 == '-';
    assert(s@[0] == c0);
    let start: usize = if c0 == '-' || c0 == '+' { 1 } else { 0 };
    let ghost d = unsigned_part(s@);
    assert(start == 0 ==> d =~= s@.skip(0));
    if start == n {
        return None;
    }
    let limit: u128 = if neg { 9223372036854775808 } else { 9223372036854775807 };
    let mut mag: u128 = 0;
    let mut i: usize = start;
    while i < n
        invariant
            n == s@.len(),
            start <= i <= n,
            d == s@.skip(start as int),
            d == unsigned_part(s@),
            neg == (s@[0] == '-'),
            mag as int == digits_value(d.take(i - start)),
            mag <= limit,
            limit == (if neg { 9223372036854775808u128 } else { 9223372036854775807u128 }),
            forall|k: int| 0 <= k < i - start ==> is_digit(d[k]),
        decreases n - i,
    {
        let c = s.get_char(i);
        if !('0' <= c && c <= '9') {
            assert(!is_digit(d[i - start]));
            assert(!all_digits(d));
            return None;
        }
        let next: u128 = mag * 10 + (c as u32 - 48) as u128;
        assert(d.take(i - start + 1).drop_last() =~= d.take(i - start));
        assert(d.take(i - start + 1).last() == c);
        assert(next as int == digits_value(d.take(i - start + 1)));
        if next > limit {
            proof {
                if all_digits(d) {
                    lemma_digits_value_grows(d, i - start + 1);
                    assert(digits_value(d) > limit);
                }
            }
            return None;
        }
        mag = next;
        i = i + 1;
    }
    assert(d.take(n - start) =~= d);
    let v: i128 = if neg { -(mag as i128) } else { mag as i128 };
    Some(v as i64)
}

pub open spec fn digit_char(d: int) -> char {
    seq!['0', '1', '2', '3', '4', '5', '6', '7', '8', '9'][d]
}

pub open spec fn natural_text(n: nat) -> Seq<char>
    decreases n,
{
    if n < 10 {
        seq![digit_char(n as int)]
    } else {
        natural_text(n / 10).push(digit_char((n % 10) as int))
    }
}

/// The decimal form of `n`, with a leading minus sign when it is negative.
pub open spec fn decimal(n: int) -> Seq<char> {
    if n < 0 {
        seq!['-'] + natural_text((-n) as nat)
    } else {
        natural_text(n as nat)
    }
}

fn digit_text(d: u64) -> (r: &'static str)
    requires
        d < 10,
    ensures
        r@ == seq![digit_char(d as int)],
{
    proof {
        reveal_strlit("0");
        reveal_strlit("1");
        reveal_strlit("2");
        reveal_strlit("3");
        reveal_strlit("4");
        reveal_strlit("5");
        reveal_strlit("6");
        reveal_strlit("7");
        reveal_strlit("8");
        reveal_strlit("9");
    }
    let r = if d == 0 {
        "0"
    } else if d == 1 {
        "1"
    } else if d == 2 {
        "2"
    } else if d == 3 {
        "3"
    } else if d == 4 {
        "4"
    } else if d == 5 {
        "5"
    } else if d == 6 {
        "6"
    } else if d == 7 {
        "7"
    } else if d == 8 {
        "8"
    } else {
        "9"
    };
    assert(r@ =~= seq![digit_char(d as int)]);
    r
}

/// The decimal digits of `n`.
pub fn natural_string(n: u64) -> (r: String)
    ensures
        r@ == natural_text(n as nat),
    decreases n,
{
    if n < 10 {
        String::from_str(digit_text(n))
    } else {
        let r = natural_string(n / 10).concat(digit_text(n % 10));
        assert(r@ =~= natural_text((n / 10) as nat).push(digit_char((n % 10) as int)));
        r
    }
}

/// The decimal form of `v`, preceded by `-` when it is negative.
pub fn int_text(v: i64) -> (r: String)
    ensures
        r@ == decimal(v as int),
{
    if v < 0 {
        let m: u64 = (-(v as i128)) as u64;
        let r = String::from_str("-").concat(natural_string(m).as_str());
        proof {
            reveal_strlit("-");
        }
        assert(r@ =~= seq!['-'] + natural_text((-(v as int)) as nat));
        r
    } else {
        natural_string(v as u64)
    }
}

/// The separator between blocks of a block listing: an empty line.
pub open spec fn block_sep() -> Seq<char> {
    seq!['\n', '\n']
}

/// The pieces of `s` between occurrences of two newlines, as
/// `str::split("\n\n")` yields them (the last may be empty).
pub open spec fn blocks(s: Seq<char>) -> Seq<Seq<char>>
    decreases s.len(),
    via blocks_decreases
{
    if find_seq_from(s, block_sep(), 0) < 0 {
        seq![s]
    } else {
        seq![s.take(find_seq_from(s, block_sep(), 0))] + blocks(
            s.skip(find_seq_from(s, block_sep(), 0) + 2),
        )
    }
}

#[via_fn]
proof fn blocks_decreases(s: Seq<char>) {
    lemma_find_seq_from(s, block_sep(), 0);
}

/// Splits `text` at each empty line.
pub fn split_blocks(text: &str) -> (r: Vec<String>)
    ensures
        views(r@) == blocks(text@),
{
    let sep = "\n\n";
    proof {
        reveal_strlit("\n\n");
    }
    assert(sep@ =~= block_sep());
    let mut out: Vec<String> = Vec::new();
    let mut rest: &str = text;
    loop
        invariant
            sep@ == block_sep(),
            blocks(text@) == views(out@) + blocks(rest@),
        decreases rest@.len(),
    {
        let ghost before = out@;
        match find_str(rest, sep, 0) {
            None => {
                out.push(String::from_str(rest));
                assert(views(out@) =~= views(before).push(rest@));
                assert(views(before) + blocks(rest@) =~= views(out@));
                return out;
            },
            Some(k) => {
                proof {
                    lemma_find_seq_from(rest@, block_sep(), 0);
                }
                let n = rest.unicode_len();
                let piece = rest.substring_char(0, k);
                assert(piece@ =~= rest@.take(k as int));
                out.push(String::from_str(piece));
                assert(views(out@) =~= views(before).push(piece@));
                let next = rest.substring_char(k + 2, n);
                assert(next@ =~= rest@.skip(k + 2));
                assert(views(before) + blocks(rest@) =~= views(out@) + blocks(next@));
                rest = next;
            },
        }
    }
}

} // verus!
