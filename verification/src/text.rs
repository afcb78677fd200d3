//! Character-level string operations shared by the rest of the library.
//!
//! Every operation is stated over `Seq<char>`, the view of `str` and `String`.
use vstd::prelude::*;

verus! {

/// Unicode `White_Space` characters, the set that `char::is_whitespace` and
/// `str::trim` use.
pub open spec fn is_ws(c: char) -> bool {
    let v = c as u32;
    ||| 0x09 <= v <= 0x0d
    ||| v == 0x20
    ||| v == 0x85
    ||| v == 0xa0
    ||| v == 0x1680
    ||| 0x2000 <= v <= 0x200a
    ||| v == 0x2028
    ||| v == 0x2029
    ||| v == 0x202f
    ||| v == 0x205f
    ||| v == 0x3000
}

/// `s` without its leading whitespace.
pub open spec fn trim_start(s: Seq<char>) -> Seq<char>
    decreases s.len(),
{
    if s.len() > 0 && is_ws(s[0]) {
        trim_start(s.drop_first())
    } else {
        s
    }
}

/// `s` without its trailing whitespace.
pub open spec fn trim_end(s: Seq<char>) -> Seq<char>
    decreases s.len(),
{
    if s.len() > 0 && is_ws(s.last()) {
        trim_end(s.drop_last())
    } else {
        s
    }
}

/// `s` without leading and trailing whitespace (`str::trim`).
pub open spec fn trim(s: Seq<char>) -> Seq<char> {
    trim_end(trim_start(s))
}

/// `s` without any trailing copies of `c` (`str::trim_end_matches` with a char).
pub open spec fn trim_end_char(s: Seq<char>, c: char) -> Seq<char>
    decreases s.len(),
{
    if s.len() > 0 && s.last() == c {
        trim_end_char(s.drop_last(), c)
    } else {
        s
    }
}

/// `s` without any leading copies of `c` (`str::trim_start_matches` with a char).
pub open spec fn trim_start_char(s: Seq<char>, c: char) -> Seq<char>
    decreases s.len(),
{
    if s.len() > 0 && s[0] == c {
        trim_start_char(s.drop_first(), c)
    } else {
        s
    }
}

/// `s` begins with `p`.
pub open spec fn has_prefix(s: Seq<char>, p: Seq<char>) -> bool {
    p.len() <= s.len() && s.subrange(0, p.len() as int) == p
}

/// `s` ends with `p`.
pub open spec fn has_suffix(s: Seq<char>, p: Seq<char>) -> bool {
    p.len() <= s.len() && s.subrange(s.len() - p.len(), s.len() as int) == p
}

/// `s` without leading copies of the whole pattern `p`
/// (`str::trim_start_matches` with a non-empty string pattern).
pub open spec fn trim_start_str(s: Seq<char>, p: Seq<char>) -> Seq<char>
    decreases s.len(),
{
    if p.len() > 0 && has_prefix(s, p) {
        trim_start_str(s.skip(p.len() as int), p)
    } else {
        s
    }
}

/// The decimal digit character for `d < 10`.
pub open spec fn digit_char(d: nat) -> char {
    (('0' as u32) + d) as char
}

/// Decimal rendering of a natural number, as `Display` writes it.
pub open spec fn dec(n: nat) -> Seq<char>
    decreases n,
{
    if n < 10 {
        seq![digit_char(n)]
    } else {
        dec(n / 10).push(digit_char(n % 10))
    }
}

/// Lower-case hex digit character for `d < 16`.
pub open spec fn hex_char(d: nat) -> char {
    if d < 10 {
        (('0' as u32) + d) as char
    } else {
        (('a' as u32) + (d - 10)) as char
    }
}

/// The lowest `n` hex digits of `v`, most significant first, zero-padded.
pub open spec fn hex_fixed(v: nat, n: nat) -> Seq<char>
    decreases n,
{
    if n == 0 {
        Seq::empty()
    } else {
        hex_fixed(v / 16, (n - 1) as nat).push(hex_char(v % 16))
    }
}

/// Hyphenated lower-case rendering of a 128-bit identifier, the form that
/// `uuid::Uuid`'s `Display` writes (8-4-4-4-12 hex digits).
pub open spec fn uuid_text(id: u128) -> Seq<char> {
    let h = hex_fixed(id as nat, 32);
    h.subrange(0, 8) + seq!['-'] + h.subrange(8, 12) + seq!['-'] + h.subrange(12, 16)
        + seq!['-'] + h.subrange(16, 20) + seq!['-'] + h.subrange(20, 32)
}

/// ASCII letter or digit (`char::is_ascii_alphanumeric`).
pub open spec fn is_ascii_alnum(c: char) -> bool {
    ('a' <= c && c <= 'z') || ('A' <= c && c <= 'Z') || ('0' <= c && c <= '9')
}

/// ASCII lower-casing of one char (`char::to_ascii_lowercase`).
pub open spec fn ascii_lower(c: char) -> char {
    if 'A' <= c && c <= 'Z' {
        ((c as u32) + 32) as char
    } else {
        c
    }
}

/// ASCII lower-casing of a whole string (`str::to_ascii_lowercase`).
pub open spec fn ascii_lower_seq(s: Seq<char>) -> Seq<char> {
    s.map_values(|c: char| ascii_lower(c))
}

/// Appends one char: std's `String::push`, which adds the char at the end.
#[verifier::external_body]
pub(crate) fn push_char(s: &mut String, c: char)
    ensures
        final(s)@ == old(s)@.push(c),
{
    s.push(c);
}

/// A fresh `String` holding `s`.
pub fn owned(s: &str) -> (r: String)
    ensures
        r@ == s@,
{
    s.to_owned()
}

/// Copy of a string.
pub fn copy_string(s: &String) -> (r: String)
    ensures
        r@ == s@,
{
    s.clone()
}

/// The string made of the chars of `s` from `from` up to `to`.
pub fn slice_chars(s: &str, from: usize, to: usize) -> (r: String)
    requires
        from <= to <= s@.len(),
    ensures
        r@ == s@.subrange(from as int, to as int),
{
    let mut r = String::new();
    let mut i = from;
    while i < to
        invariant
            from <= i <= to <= s@.len(),
            r@ == s@.subrange(from as int, i as int),
        decreases to - i,
    {
        let c = s.get_char(i);
        push_char(&mut r, c);
        proof {
            assert(s@.subrange(from as int, (i + 1) as int) =~= s@.subrange(from as int, i as int).push(c));
        }
        i = i + 1;
    }
    r
}

/// Concatenation of two strings.
pub fn concat2(a: &str, b: &str) -> (r: String)
    ensures
        r@ == a@ + b@,
{
    let mut r = owned(a);
    r.append(b);
    r
}

/// Concatenation of three strings.
pub fn concat3(a: &str, b: &str, c: &str) -> (r: String)
    ensures
        r@ == a@ + b@ + c@,
{
    let mut r = owned(a);
    r.append(b);
    r.append(c);
    r
}

/// Equality of two strings by their chars.
pub fn str_eq(a: &str, b: &str) -> (r: bool)
    ensures
        r == (a@ == b@),
{
    let n = a.unicode_len();
    if n != b.unicode_len() {
        return false;
    }
    let mut i: usize = 0;
    while i < n
        invariant
            n == a@.len() == b@.len(),
            i <= n,
            forall|j: int| 0 <= j < i ==> a@[j] == b@[j],
        decreases n - i,
    {
        if a.get_char(i) != b.get_char(i) {
            return false;
        }
        i = i + 1;
    }
    assert(a@ =~= b@);
    true
}

/// Whether `s` begins with `p` (`str::starts_with`).
pub fn starts_with(s: &str, p: &str) -> (r: bool)
    ensures
        r == has_prefix(s@, p@),
{
    let n = s.unicode_len();
    let m = p.unicode_len();
    if m > n {
        return false;
    }
    let mut i: usize = 0;
    while i < m
        invariant
            n == s@.len(),
            m == p@.len(),
            m <= n,
            i <= m,
            forall|j: int| 0 <= j < i ==> s@[j] == p@[j],
        decreases m - i,
    {
        if s.get_char(i) != p.get_char(i) {
            assert(s@.subrange(0, m as int)[i as int] != p@[i as int]);
            return false;
        }
        i = i + 1;
    }
    assert(s@.subrange(0, m as int) =~= p@);
    true
}

/// Whether `s` ends with `p` (`str::ends_with`).
pub fn ends_with(s: &str, p: &str) -> (r: bool)
    ensures
        r == has_suffix(s@, p@),
{
    let n = s.unicode_len();
    let m = p.unicode_len();
    if m > n {
        return false;
    }
    let off = n - m;
    let mut i: usize = 0;
    while i < m
        invariant
            n == s@.len(),
            m == p@.len(),
            off == n - m,
            i <= m,
            forall|j: int| 0 <= j < i ==> s@[off + j] == p@[j],
        decreases m - i,
    {
        if s.get_char(off + i) != p.get_char(i) {
            assert(s@.subrange(off as int, n as int)[i as int] != p@[i as int]);
            return false;
        }
        i = i + 1;
    }
    assert(s@.subrange(off as int, n as int) =~= p@);
    true
}

/// Whether `s` holds the char `c` anywhere.
pub fn contains_char(s: &str, c: char) -> (r: bool)
    ensures
        r == s@.contains(c),
{
    let n = s.unicode_len();
    let mut i: usize = 0;
    while i < n
        invariant
            n == s@.len(),
            i <= n,
            forall|j: int| 0 <= j < i ==> s@[j] != c,
        decreases n - i,
    {
        if s.get_char(i) == c {
            return true;
        }
        i = i + 1;
    }
    false
}

/// Whether `p` occurs in `s` at position `at`.
pub open spec fn occurs_at(s: Seq<char>, p: Seq<char>, at: int) -> bool {
    0 <= at && at + p.len() <= s.len() && s.subrange(at, at + p.len()) == p
}

/// Whether `p` occurs anywhere in `s` (`str::contains` with a string pattern).
pub open spec fn contains_seq(s: Seq<char>, p: Seq<char>) -> bool {
    exists|at: int| occurs_at(s, p, at)
}

/// Whether `p` occurs in `s` (`str::contains`).
pub fn contains_str(s: &str, p: &str) -> (r: bool)
    ensures
        r == contains_seq(s@, p@),
{
    let n = s.unicode_len();
    let m = p.unicode_len();
    if m > n {
        return false;
    }
    let mut at: usize = 0;
    while at <= n - m
        invariant
            n == s@.len(),
            m == p@.len(),
            m <= n,
            at <= n - m + 1,
            forall|k: int| 0 <= k < at ==> !occurs_at(s@, p@, k),
        decreases n - m + 1 - at,
    {
        let mut i: usize = 0;
        let mut ok = true;
        while i < m
            invariant
                n == s@.len(),
                m == p@.len(),
                at + m <= n,
                i <= m,
                ok ==> forall|j: int| 0 <= j < i ==> s@[at + j] == p@[j],
                !ok ==> !occurs_at(s@, p@, at as int),
            decreases m - i,
        {
            if ok && s.get_char(at + i) != p.get_char(i) {
                assert(s@.subrange(at as int, at + m)[i as int] != p@[i as int]);
                ok = false;
            }
            i = i + 1;
        }
        if ok {
            assert(s@.subrange(at as int, at + m) =~= p@);
            assert(occurs_at(s@, p@, at as int));
            return true;
        }
        if at == n - m {
            assert forall|k: int| !occurs_at(s@, p@, k) by {
                if 0 <= k <= at {
                }
            }
            return false;
        }
        at = at + 1;
    }
    false
}

proof fn lemma_trim_start_skip(s: Seq<char>, i: int)
    requires
        0 <= i < s.len(),
        is_ws(s[i]),
    ensures
        trim_start(s.skip(i)) == trim_start(s.skip(i + 1)),
{
    assert(s.skip(i).drop_first() =~= s.skip(i + 1));
}

proof fn lemma_trim_end_take(s: Seq<char>, i: int)
    requires
        0 < i <= s.len(),
        is_ws(s[i - 1]),
    ensures
        trim_end(s.take(i)) == trim_end(s.take(i - 1)),
{
    assert(s.take(i).drop_last() =~= s.take(i - 1));
}

/// Exec test of `is_ws`.
pub fn is_whitespace(c: char) -> (r: bool)
    ensures
        r == is_ws(c),
{
    let v = c as u32;
    (0x09 <= v && v <= 0x0d) || v == 0x20 || v == 0x85 || v == 0xa0 || v == 0x1680 || (0x2000
        <= v && v <= 0x200a) || v == 0x2028 || v == 0x2029 || v == 0x202f || v == 0x205f || v
        == 0x3000
}

/// Index of the first char that is not whitespace, and one past the last
/// such char; the trimmed string is the range between them.
fn trim_bounds(s: &str) -> (r: (usize, usize))
    ensures
        r.0 <= r.1 <= s@.len(),
        s@.subrange(r.0 as int, r.1 as int) == trim(s@),
{
    let n = s.unicode_len();
    let mut i: usize = 0;
    proof {
        assert(s@.skip(0) =~= s@);
    }
    while i < n && is_whitespace(s.get_char(i))
        invariant
            n == s@.len(),
            i <= n,
            trim_start(s@) == trim_start(s@.skip(i as int)),
        decreases n - i,
    {
        proof {
            lemma_trim_start_skip(s@, i as int);
        }
        i = i + 1;
    }
    let ghost start = s@.skip(i as int);
    proof {
        assert(trim_start(start) == start);
    }
    let mut j: usize = n;
    proof {
        assert(start.take((n - i) as int) =~= start);
    }
    while j > i && is_whitespace(s.get_char(j - 1))
        invariant
            n == s@.len(),
            i <= j <= n,
            start == s@.skip(i as int),
            trim_end(start) == trim_end(start.take(j - i)),
        decreases j,
    {
        proof {
            assert(start[j - i - 1] == s@[j - 1]);
            lemma_trim_end_take(start, j - i);
        }
        j = j - 1;
    }
    proof {
        let t = start.take(j - i);
        if t.len() > 0 {
            assert(t.last() == s@[j - 1]);
        }
        assert(trim_end(t) == t);
        assert(t =~= s@.subrange(i as int, j as int));
    }
    (i, j)
}

/// `str::trim_start`, as an owned string.
pub fn trim_start_owned(s: &str) -> (r: String)
    ensures
        r@ == trim_start(s@),
{
    let n = s.unicode_len();
    let mut i: usize = 0;
    proof {
        assert(s@.skip(0) =~= s@);
    }
    while i < n && is_whitespace(s.get_char(i))
        invariant
            n == s@.len(),
            i <= n,
            trim_start(s@) == trim_start(s@.skip(i as int)),
        decreases n - i,
    {
        proof {
            lemma_trim_start_skip(s@, i as int);
        }
        i = i + 1;
    }
    proof {
        let start = s@.skip(i as int);
        assert(trim_start(start) == start);
        assert(start =~= s@.subrange(i as int, n as int));
    }
    slice_chars(s, i, n)
}

/// `str::trim`, as an owned string.
pub fn trim_owned(s: &str) -> (r: String)
    ensures
        r@ == trim(s@),
{
    let (a, b) = trim_bounds(s);
    slice_chars(s, a, b)
}

/// Whether `s` is empty after trimming (`s.trim().is_empty()`).
pub fn is_blank(s: &str) -> (r: bool)
    ensures
        r == (trim(s@).len() == 0),
{
    let (a, b) = trim_bounds(s);
    a == b
}

proof fn lemma_trim_end_char_take(s: Seq<char>, c: char, i: int)
    requires
        0 < i <= s.len(),
        s[i - 1] == c,
    ensures
        trim_end_char(s.take(i), c) == trim_end_char(s.take(i - 1), c),
{
    assert(s.take(i).drop_last() =~= s.take(i - 1));
}

/// `str::trim_end_matches(c)` for a single char `c`, as an owned string.
pub fn trim_end_char_owned(s: &str, c: char) -> (r: String)
    ensures
        r@ == trim_end_char(s@, c),
{
    let n = s.unicode_len();
    let mut j: usize = n;
    proof {
        assert(s@.take(n as int) =~= s@);
    }
    while j > 0 && s.get_char(j - 1) == c
        invariant
            n == s@.len(),
            j <= n,
            trim_end_char(s@, c) == trim_end_char(s@.take(j as int), c),
        decreases j,
    {
        proof {
            lemma_trim_end_char_take(s@, c, j as int);
        }
        j = j - 1;
    }
    proof {
        let t = s@.take(j as int);
        assert(trim_end_char(t, c) == t);
        assert(t =~= s@.subrange(0, j as int));
    }
    slice_chars(s, 0, j)
}

proof fn lemma_trim_start_char_skip(s: Seq<char>, c: char, i: int)
    requires
        0 <= i < s.len(),
        s[i] == c,
    ensures
        trim_start_char(s.skip(i), c) == trim_start_char(s.skip(i + 1), c),
{
    assert(s.skip(i).drop_first() =~= s.skip(i + 1));
}

/// `str::trim_start_matches(c)` for a single char `c`, as an owned string.
pub fn trim_start_char_owned(s: &str, c: char) -> (r: String)
    ensures
        r@ == trim_start_char(s@, c),
{
    let n = s.unicode_len();
    let mut i: usize = 0;
    proof {
        assert(s@.skip(0) =~= s@);
    }
    while i < n && s.get_char(i) == c
        invariant
            n == s@.len(),
            i <= n,
            trim_start_char(s@, c) == trim_start_char(s@.skip(i as int), c),
        decreases n - i,
    {
        proof {
            lemma_trim_start_char_skip(s@, c, i as int);
        }
        i = i + 1;
    }
    proof {
        let t = s@.skip(i as int);
        assert(trim_start_char(t, c) == t);
        assert(t =~= s@.subrange(i as int, n as int));
    }
    slice_chars(s, i, n)
}

/// `str::strip_prefix`, as an owned string.
pub fn strip_prefix_owned(s: &str, p: &str) -> (r: Option<String>)
    ensures
        r is Some <==> has_prefix(s@, p@),
        r is Some ==> r->0@ == s@.skip(p@.len() as int),
{
    if starts_with(s, p) {
        let n = s.unicode_len();
        let m = p.unicode_len();
        let r = slice_chars(s, m, n);
        assert(r@ =~= s@.skip(p@.len() as int));
        Some(r)
    } else {
        None
    }
}

/// `str::trim_start_matches` with a string pattern, as an owned string.
pub fn trim_start_str_owned(s: &str, p: &str) -> (r: String)
    ensures
        r@ == trim_start_str(s@, p@),
    decreases s@.len(),
{
    if p.unicode_len() > 0 && starts_with(s, p) {
        let rest = strip_prefix_owned(s, p);
        match rest {
            Some(rest) => trim_start_str_owned(rest.as_str(), p),
            None => owned(s),
        }
    } else {
        owned(s)
    }
}

/// Decimal rendering of an unsigned integer, as `Display` writes it.
pub fn dec_string(n: u64) -> (r: String)
    ensures
        r@ == dec(n as nat),
    decreases n,
{
    if n < 10 {
        let mut r = String::new();
        let c = ((n as u8) + 48u8) as char;
        push_char(&mut r, c);
        assert(r@ =~= seq![digit_char(n as nat)]);
        r
    } else {
        let mut r = dec_string(n / 10);
        let d = (n % 10) as u8;
        let c = (d + 48u8) as char;
        push_char(&mut r, c);
        r
    }
}

/// Hex digit character for `d < 16`.
fn hex_digit(d: u8) -> (c: char)
    requires
        d < 16,
    ensures
        c == hex_char(d as nat),
{
    if d < 10 {
        (d + 48u8) as char
    } else {
        (d - 10 + 97u8) as char
    }
}

/// The lowest `n` hex digits of `v`, most significant first.
pub fn hex_fixed_string(v: u128, n: usize) -> (r: String)
    ensures
        r@ == hex_fixed(v as nat, n as nat),
    decreases n,
{
    if n == 0 {
        String::new()
    } else {
        let mut r = hex_fixed_string(v / 16, n - 1);
        let c = hex_digit((v % 16) as u8);
        push_char(&mut r, c);
        r
    }
}

proof fn lemma_hex_fixed_len(v: nat, n: nat)
    ensures
        hex_fixed(v, n).len() == n,
    decreases n,
{
    if n > 0 {
        lemma_hex_fixed_len(v / 16, (n - 1) as nat);
    }
}

proof fn lemma_hex_fixed_no_ws(v: nat, n: nat)
    ensures
        hex_fixed(v, n).len() == n,
        forall|i: int| 0 <= i < n ==> !is_ws(#[trigger] hex_fixed(v, n)[i]),
    decreases n,
{
    if n > 0 {
        lemma_hex_fixed_no_ws(v / 16, (n - 1) as nat);
        let d = v % 16;
        assert(!is_ws(hex_char(d))) by {
            if d < 10 {
                assert((('0' as u32) + d) as char as u32 == 48 + d);
            } else {
                assert((('a' as u32) + (d - 10)) as char as u32 == 97 + d - 10);
            }
        }
    }
}

/// A non-empty run of hex digits has nothing for `trim` to remove.
pub proof fn lemma_hex_fixed_trimmed(v: nat, n: nat)
    requires
        n > 0,
    ensures
        trim(hex_fixed(v, n)) == hex_fixed(v, n),
        hex_fixed(v, n).len() == n,
{
    lemma_hex_fixed_no_ws(v, n);
    let s = hex_fixed(v, n);
    assert(!is_ws(s[0]));
    assert(trim_start(s) == s);
    assert(!is_ws(s[n - 1]));
    assert(trim_end(s) == s);
}

/// Hyphenated lower-case text of a 128-bit identifier.
pub fn uuid_string(id: u128) -> (r: String)
    ensures
        r@ == uuid_text(id),
{
    let h = hex_fixed_string(id, 32);
    proof {
        lemma_hex_fixed_len(id as nat, 32);
    }
    let mut r = slice_chars(h.as_str(), 0, 8);
    r.append("-");
    let p2 = slice_chars(h.as_str(), 8, 12);
    r.append(p2.as_str());
    r.append("-");
    let p3 = slice_chars(h.as_str(), 12, 16);
    r.append(p3.as_str());
    r.append("-");
    let p4 = slice_chars(h.as_str(), 16, 20);
    r.append(p4.as_str());
    r.append("-");
    let p5 = slice_chars(h.as_str(), 20, 32);
    r.append(p5.as_str());
    proof {
        reveal_strlit("-");
    }
    r
}

/// ASCII lower-casing of a whole string.
pub fn ascii_lowercase(s: &str) -> (r: String)
    ensures
        r@ == ascii_lower_seq(s@),
{
    let n = s.unicode_len();
    let mut r = String::new();
    let mut i: usize = 0;
    while i < n
        invariant
            n == s@.len(),
            i <= n,
            r@ == ascii_lower_seq(s@.take(i as int)),
        decreases n - i,
    {
        let c = s.get_char(i);
        let l = if 'A' <= c && c <= 'Z' {
            ((c as u8) + 32u8) as char
        } else {
            c
        };
        push_char(&mut r, l);
        proof {
            assert(s@.take(i + 1) =~= s@.take(i as int).push(c));
            assert(ascii_lower_seq(s@.take(i + 1)) =~= ascii_lower_seq(s@.take(i as int)).push(l));
        }
        i = i + 1;
    }
    assert(s@.take(n as int) =~= s@);
    r
}

/// Whether every char of `s` is an ASCII decimal digit.
pub open spec fn all_digits(s: Seq<char>) -> bool {
    forall|i: int| 0 <= i < s.len() ==> '0' <= #[trigger] s[i] && s[i] <= '9'
}

/// The value of a string of decimal digits.
pub open spec fn digits_value(s: Seq<char>) -> nat
    decreases s.len(),
{
    if s.len() == 0 {
        0
    } else {
        digits_value(s.drop_last()) * 10 + ((s.last() as u32) - ('0' as u32)) as nat
    }
}

/// What `u16::from_str` yields: an optional '+' followed by at least one
/// decimal digit and nothing else, of a value that fits in 16 bits.
pub open spec fn parse_u16_spec(s: Seq<char>) -> Option<u16> {
    let body = if s.len() > 0 && s[0] == '+' {
        s.drop_first()
    } else {
        s
    };
    if body.len() > 0 && all_digits(body) && digits_value(body) <= u16::MAX {
        Some(digits_value(body) as u16)
    } else {
        None
    }
}

/// `str::parse::<u16>`, with the result as an option.
pub fn parse_u16_text(s: &str) -> (r: Option<u16>)
    ensures
        r == parse_u16_spec(s@),
{
    let n = s.unicode_len();
    let start: usize = if n > 0 && s.get_char(0) == '+' {
        1
    } else {
        0
    };
    let ghost body = if s@.len() > 0 && s@[0] == '+' {
        s@.drop_first()
    } else {
        s@
    };
    proof {
        assert(body =~= s@.subrange(start as int, n as int));
    }
    if start == n {
        return None;
    }
    let mut value: u32 = 0;
    let mut i: usize = start;
    proof {
        assert(s@.subrange(start as int, start as int) =~= Seq::<char>::empty());
    }
    while i < n
        invariant
            n == s@.len(),
            start <= i <= n,
            body == s@.subrange(start as int, n as int),
            body == (if s@.len() > 0 && s@[0] == '+' {
                s@.drop_first()
            } else {
                s@
            }),
            all_digits(s@.subrange(start as int, i as int)),
            value as nat == digits_value(s@.subrange(start as int, i as int)),
            value <= u16::MAX,
        decreases n - i,
    {
        let c = s.get_char(i);
        let ghost pre = s@.subrange(start as int, i as int);
        let ghost next = s@.subrange(start as int, i + 1);
        proof {
            assert(next.drop_last() =~= pre);
            assert(next.last() == c);
        }
        if !('0' <= c && c <= '9') {
            proof {
                assert(body[i - start] == c);
                assert(!('0' <= body[i - start] && body[i - start] <= '9'));
                assert(!all_digits(body));
                assert(parse_u16_spec(s@) is None);
            }
            return None;
        }
        let d = (c as u32) - 48;
        value = value * 10 + d;
        proof {
            assert(digits_value(next) == digits_value(pre) * 10 + ((c as u32) - ('0' as u32)) as nat);
        }
        if value > 65535 {
            proof {
                assert(next =~= body.take(i + 1 - start));
                assert(all_digits(next));
                lemma_digits_value_prefix_le(body, (i + 1 - start) as int);
                assert(digits_value(next) > 65535);
                assert(parse_u16_spec(s@) is None);
            }
            return None;
        }
        i = i + 1;
    }
    Some(value as u16)
}

proof fn lemma_digits_value_prefix_le(s: Seq<char>, k: int)
    requires
        0 <= k <= s.len(),
        all_digits(s.take(k)),
    ensures
        digits_value(s.take(k)) <= digits_value(s) || !all_digits(s),
    decreases s.len() - k,
{
    if k < s.len() && all_digits(s) {
        assert(all_digits(s.take(k + 1)));
        lemma_digits_value_prefix_le(s, k + 1);
        assert(s.take(k + 1).drop_last() =~= s.take(k));
    }
    if k == s.len() {
        assert(s.take(k) =~= s);
    }
}

/// `Path::join` on Unix paths: an absolute part replaces the base; an empty
/// base gives the part; otherwise one '/' separates them unless the base
/// already ends with one.
pub open spec fn path_join(base: Seq<char>, part: Seq<char>) -> Seq<char> {
    if part.len() > 0 && part[0] == '/' {
        part
    } else if base.len() == 0 {
        part
    } else if base.last() == '/' {
        base + part
    } else {
        base + seq!['/'] + part
    }
}

/// `Path::join` of two Unix paths, as an owned string.
pub fn join_path(base: &str, part: &str) -> (r: String)
    ensures
        r@ == path_join(base@, part@),
{
    let n = base.unicode_len();
    if part.unicode_len() > 0 && part.get_char(0) == '/' {
        owned(part)
    } else if n == 0 {
        owned(part)
    } else if base.get_char(n - 1) == '/' {
        concat2(base, part)
    } else {
        proof {
            reveal_strlit("/");
            assert("/"@ =~= seq!['/']);
        }
        concat3(base, "/", part)
    }
}

/// What `Path::parent` yields for a path: the path without its last
/// component, or `None` for a root or empty path.
pub uninterp spec fn path_parent(path: Seq<char>) -> Option<Seq<char>>;

/// std's `Path::parent`, read as text; the result is a function of the path.
#[verifier::external_body]
pub(crate) fn parent_path(path: &str) -> (r: Option<String>)
    ensures
        r.deep_view() == path_parent(path@),
{
    std::path::Path::new(path).parent().map(|p| p.to_string_lossy().to_string())
}

/// The chars of `s` up to the first char satisfying the separator test of
/// `str::split([a, b])`: the first piece of such a split.
pub open spec fn first_piece(s: Seq<char>, a: char, b: char) -> Seq<char>
    decreases s.len(),
{
    if s.len() == 0 {
        s
    } else if s[0] == a || s[0] == b {
        Seq::empty()
    } else {
        seq![s[0]] + first_piece(s.drop_first(), a, b)
    }
}

/// The first piece of `s.split([a, b])`.
pub fn first_piece_of(s: &str, a: char, b: char) -> (r: String)
    ensures
        r@ == first_piece(s@, a, b),
{
    let n = s.unicode_len();
    let mut i: usize = 0;
    proof {
        assert(s@.skip(0) =~= s@);
        assert(s@.take(0) + first_piece(s@, a, b) =~= first_piece(s@, a, b));
    }
    while i < n && s.get_char(i) != a && s.get_char(i) != b
        invariant
            n == s@.len(),
            i <= n,
            first_piece(s@, a, b) == s@.take(i as int) + first_piece(s@.skip(i as int), a, b),
        decreases n - i,
    {
        proof {
            let t = s@.skip(i as int);
            assert(t[0] == s@[i as int]);
            assert(t.drop_first() =~= s@.skip(i + 1));
            assert(s@.take(i as int) + seq![s@[i as int]] =~= s@.take(i + 1));
            assert(s@.take(i as int) + (seq![s@[i as int]] + first_piece(s@.skip(i + 1), a, b))
                =~= s@.take(i + 1) + first_piece(s@.skip(i + 1), a, b));
        }
        i = i + 1;
    }
    proof {
        let t = s@.skip(i as int);
        if i < n {
            assert(t[0] == s@[i as int]);
        }
        assert(first_piece(t, a, b) =~= Seq::<char>::empty());
        assert(s@.take(i as int) + Seq::<char>::empty() =~= s@.take(i as int));
        assert(s@.take(i as int) =~= s@.subrange(0, i as int));
    }
    slice_chars(s, 0, i)
}

/// `s` without trailing copies of the whole pattern `p`
/// (`str::trim_end_matches` with a non-empty string pattern).
pub open spec fn trim_end_str(s: Seq<char>, p: Seq<char>) -> Seq<char>
    decreases s.len(),
{
    if p.len() > 0 && has_suffix(s, p) {
        trim_end_str(s.take(s.len() - p.len()), p)
    } else {
        s
    }
}

/// `str::trim_end_matches` with a string pattern, as an owned string.
pub fn trim_end_str_owned(s: &str, p: &str) -> (r: String)
    ensures
        r@ == trim_end_str(s@, p@),
    decreases s@.len(),
{
    if p.unicode_len() > 0 && ends_with(s, p) {
        let n = s.unicode_len();
        let m = p.unicode_len();
        let rest = slice_chars(s, 0, n - m);
        assert(rest@ =~= s@.take(s@.len() - p@.len()));
        trim_end_str_owned(rest.as_str(), p)
    } else {
        owned(s)
    }
}


/// Number of bytes in the UTF-8 encoding of `c`.
pub open spec fn utf8_len(c: char) -> nat {
    let v = c as int;
    if v < 0x80 {
        1
    } else if v < 0x800 {
        2
    } else if v < 0x10000 {
        3
    } else {
        4
    }
}

/// Number of bytes in the UTF-8 encoding of `s` (what `str::len` counts).
pub open spec fn utf8_width(s: Seq<char>) -> nat
    decreases s.len(),
{
    if s.len() == 0 {
        0
    } else {
        utf8_width(s.drop_last()) + utf8_len(s.last())
    }
}

/// Byte offset `n` of `s` falls between two chars (or at either end).
pub open spec fn byte_boundary(s: Seq<char>, n: nat) -> bool {
    exists|k: int| 0 <= k <= s.len() && #[trigger] utf8_width(s.take(k)) == n
}

proof fn lemma_width_step(s: Seq<char>, k: int)
    requires
        0 <= k < s.len(),
    ensures
        utf8_width(s.take(k + 1)) == utf8_width(s.take(k)) + utf8_len(s[k]),
{
    assert(s.take(k + 1).drop_last() =~= s.take(k));
}

proof fn lemma_width_monotone(s: Seq<char>, a: int, b: int)
    requires
        0 <= a <= b <= s.len(),
    ensures
        utf8_width(s.take(a)) <= utf8_width(s.take(b)),
        a < b ==> utf8_width(s.take(a)) < utf8_width(s.take(b)),
    decreases b - a,
{
    if a < b {
        lemma_width_step(s, b - 1);
        lemma_width_monotone(s, a, b - 1);
    }
}

/// A prefix is no wider than the whole.
pub proof fn lemma_width_monotone_pub(s: Seq<char>, k: int)
    requires
        0 <= k <= s.len(),
    ensures
        utf8_width(s.take(k)) <= utf8_width(s),
{
    lemma_width_monotone(s, k, s.len() as int);
    assert(s.take(s.len() as int) =~= s);
}

/// Distinct char prefixes have distinct byte widths.
pub proof fn lemma_width_injective(s: Seq<char>, a: int, b: int)
    requires
        0 <= a <= s.len(),
        0 <= b <= s.len(),
        utf8_width(s.take(a)) == utf8_width(s.take(b)),
    ensures
        a == b,
{
    if a < b {
        lemma_width_monotone(s, a, b);
    } else if b < a {
        lemma_width_monotone(s, b, a);
    }
}

fn char_utf8_len(c: char) -> (r: usize)
    ensures
        r == utf8_len(c),
{
    let v = c as u32;
    if v < 0x80 {
        1
    } else if v < 0x800 {
        2
    } else if v < 0x10000 {
        3
    } else {
        4
    }
}

/// `&s[..n]` as an owned string: the leading chars of `s` that make up
/// exactly `n` bytes. `None` when `s` has fewer than `n` bytes, or when byte
/// `n` falls inside a char (where slicing would panic).
pub fn byte_prefix(s: &str, n: usize) -> (r: Option<String>)
    ensures
        match r {
            Some(t) => t@.len() <= s@.len() && t@ == s@.take(t@.len() as int) && utf8_width(t@)
                == n,
            None => utf8_width(s@) < n || !byte_boundary(s@, n as nat),
        },
{
    let len = s.unicode_len();
    let mut i: usize = 0;
    let mut w: u128 = 0;
    proof {
        assert(s@.take(0) =~= Seq::<char>::empty());
    }
    while i < len && w < n as u128
        invariant
            len == s@.len(),
            i <= len,
            w == utf8_width(s@.take(i as int)),
            i > 0 ==> utf8_width(s@.take(i - 1)) < n,
        decreases len - i,
    {
        let c = s.get_char(i);
        proof {
            lemma_width_step(s@, i as int);
        }
        w = w + char_utf8_len(c) as u128;
        i = i + 1;
    }
    if w == n as u128 {
        proof {
            assert(s@.take(i as int).len() == i);
        }
        let t = slice_chars(s, 0, i);
        proof {
            assert(t@ =~= s@.take(i as int));
            assert(t@.take(t@.len() as int) =~= t@);
        }
        Some(t)
    } else {
        proof {
            if i == len {
                assert(s@.take(len as int) =~= s@);
                if w > n {
                    assert forall|k: int| 0 <= k <= s@.len() implies #[trigger] utf8_width(
                        s@.take(k),
                    ) != n by {
                        if k < i {
                            lemma_width_monotone(s@, k, i - 1);
                        } else {
                            lemma_width_monotone(s@, i as int, k);
                        }
                    }
                }
            } else {
                assert forall|k: int| 0 <= k <= s@.len() implies #[trigger] utf8_width(s@.take(k))
                    != n by {
                    if k < i {
                        lemma_width_monotone(s@, k, i - 1);
                    } else {
                        lemma_width_monotone(s@, i as int, k);
                    }
                }
            }
        }
        None
    }
}


/// The order of `str`'s `Ord`: lexicographic by code point (the order of
/// the UTF-8 bytes), a proper prefix first.
pub open spec fn str_lt(a: Seq<char>, b: Seq<char>) -> bool
    decreases a.len(),
{
    if a.len() == 0 {
        b.len() > 0
    } else if b.len() == 0 {
        false
    } else if a[0] != b[0] {
        (a[0] as int) < (b[0] as int)
    } else {
        str_lt(a.drop_first(), b.drop_first())
    }
}

proof fn lemma_str_lt_irreflexive(a: Seq<char>)
    ensures
        !str_lt(a, a),
    decreases a.len(),
{
    if a.len() > 0 {
        lemma_str_lt_irreflexive(a.drop_first());
    }
}

proof fn lemma_str_lt_asymmetric(a: Seq<char>, b: Seq<char>)
    ensures
        str_lt(a, b) ==> !str_lt(b, a),
    decreases a.len(),
{
    if a.len() > 0 && b.len() > 0 && a[0] == b[0] {
        lemma_str_lt_asymmetric(a.drop_first(), b.drop_first());
    }
}

proof fn lemma_str_lt_total(a: Seq<char>, b: Seq<char>)
    ensures
        a != b ==> str_lt(a, b) || str_lt(b, a),
    decreases a.len(),
{
    if a.len() > 0 && b.len() > 0 && a[0] == b[0] {
        lemma_str_lt_total(a.drop_first(), b.drop_first());
        if a.drop_first() == b.drop_first() {
            assert(a =~= seq![a[0]] + a.drop_first());
            assert(b =~= seq![b[0]] + b.drop_first());
        }
    } else if a.len() == 0 && b.len() == 0 {
        assert(a =~= b);
    } else if a.len() > 0 && b.len() > 0 {
        assert(a[0] != b[0]);
        assert((a[0] as int) != (b[0] as int));
    }
}

proof fn lemma_str_lt_transitive(a: Seq<char>, b: Seq<char>, c: Seq<char>)
    ensures
        str_lt(a, b) && str_lt(b, c) ==> str_lt(a, c),
    decreases a.len(),
{
    if a.len() > 0 && b.len() > 0 && c.len() > 0 {
        lemma_str_lt_transitive(a.drop_first(), b.drop_first(), c.drop_first());
    }
}

/// `str_lt` is a strict total order.
pub proof fn lemma_str_lt_order(a: Seq<char>, b: Seq<char>, c: Seq<char>)
    ensures
        !str_lt(a, a),
        str_lt(a, b) ==> !str_lt(b, a),
        a != b ==> str_lt(a, b) || str_lt(b, a),
        str_lt(a, b) && str_lt(b, c) ==> str_lt(a, c),
{
    lemma_str_lt_irreflexive(a);
    lemma_str_lt_asymmetric(a, b);
    lemma_str_lt_total(a, b);
    lemma_str_lt_transitive(a, b, c);
}

/// `a < b` for strings, in the order of `str`'s `Ord`.
pub fn str_less(a: &str, b: &str) -> (r: bool)
    ensures
        r == str_lt(a@, b@),
{
    let n = a.unicode_len();
    let m = b.unicode_len();
    let mut i: usize = 0;
    proof {
        assert(a@.skip(0) =~= a@);
        assert(b@.skip(0) =~= b@);
    }
    while i < n && i < m && a.get_char(i) == b.get_char(i)
        invariant
            n == a@.len(),
            m == b@.len(),
            i <= n,
            i <= m,
            str_lt(a@, b@) == str_lt(a@.skip(i as int), b@.skip(i as int)),
        decreases n - i,
    {
        proof {
            let x = a@.skip(i as int);
            let y = b@.skip(i as int);
            assert(x.drop_first() =~= a@.skip(i + 1));
            assert(y.drop_first() =~= b@.skip(i + 1));
        }
        i = i + 1;
    }
    if i == n {
        proof {
            assert(a@.skip(i as int).len() == 0);
        }
        i < m
    } else if i == m {
        false
    } else {
        proof {
            assert(a@.skip(i as int)[0] == a@[i as int]);
            assert(b@.skip(i as int)[0] == b@[i as int]);
        }
        (a.get_char(i) as u32) < (b.get_char(i) as u32)
    }
}


/// The chars of an optional text.
pub open spec fn opt_str(o: Option<&str>) -> Option<Seq<char>> {
    match o {
        Some(s) => Some(s@),
        None => None,
    }
}


/// A text whose last char is not whitespace keeps at least that char when
/// trimmed.
pub proof fn lemma_trim_keeps_last(s: Seq<char>)
    requires
        s.len() > 0,
        !is_ws(s.last()),
    ensures
        trim(s).len() > 0,
        trim_start(s).len() > 0 && trim_start(s).last() == s.last(),
    decreases s.len(),
{
    if is_ws(s[0]) {
        assert(s.len() > 1);
        let t = s.drop_first();
        assert(t.last() == s.last());
        lemma_trim_keeps_last(t);
    }
    let u = trim_start(s);
    assert(trim_end(u) == u);
}

/// Chars below 0x80 take one byte each.
pub open spec fn ascii_chars(s: Seq<char>) -> bool {
    forall|i: int| 0 <= i < s.len() ==> (#[trigger] s[i] as int) < 0x80
}

/// An ASCII text is as many bytes long as it has chars.
pub proof fn lemma_ascii_width(s: Seq<char>)
    requires
        ascii_chars(s),
    ensures
        utf8_width(s) == s.len(),
    decreases s.len(),
{
    if s.len() > 0 {
        let p = s.drop_last();
        assert(ascii_chars(p)) by {
            assert forall|i: int| 0 <= i < p.len() implies (#[trigger] p[i] as int) < 0x80 by {
                assert(p[i] == s[i]);
            }
        }
        lemma_ascii_width(p);
        assert((s[s.len() - 1] as int) < 0x80);
    }
}

proof fn lemma_hex_fixed_ascii(v: nat, n: nat)
    ensures
        ascii_chars(hex_fixed(v, n)),
        hex_fixed(v, n).len() == n,
    decreases n,
{
    lemma_hex_fixed_len(v, n);
    if n > 0 {
        lemma_hex_fixed_ascii(v / 16, (n - 1) as nat);
        let d = v % 16;
        let c = hex_char(d);
        assert((c as int) < 0x80) by {
            if d < 10 {
                assert((('0' as u32) + d) as char as int == 48 + d);
            } else {
                assert((('a' as u32) + (d - 10)) as char as int == 97 + d - 10);
            }
        }
        let h = hex_fixed(v, n);
        let p = hex_fixed(v / 16, (n - 1) as nat);
        assert forall|i: int| 0 <= i < h.len() implies (#[trigger] h[i] as int) < 0x80 by {
            if i < p.len() {
                assert(h[i] == p[i]);
            }
        }
    }
}

/// The text of an identifier is 36 ASCII chars.
pub proof fn lemma_uuid_text_ascii(id: u128)
    ensures
        uuid_text(id).len() == 36,
        ascii_chars(uuid_text(id)),
        utf8_width(uuid_text(id)) == 36,
{
    let h = hex_fixed(id as nat, 32);
    lemma_hex_fixed_ascii(id as nat, 32);
    let t = uuid_text(id);
    assert(t.len() == 36);
    assert forall|i: int| 0 <= i < t.len() implies (#[trigger] t[i] as int) < 0x80 by {
        if i < 8 {
            assert(t[i] == h[i]);
        } else if i == 8 || i == 13 || i == 18 || i == 23 {
            assert(t[i] == '-');
        } else if i < 13 {
            assert(t[i] == h[i - 1]);
        } else if i < 18 {
            assert(t[i] == h[i - 2]);
        } else if i < 23 {
            assert(t[i] == h[i - 3]);
        } else {
            assert(t[i] == h[i - 4]);
        }
    }
    lemma_ascii_width(t);
}

} // verus!
