//! Text helpers over `char` sequences: prefixes, substrings, ASCII and
//! Unicode case folding, whitespace trimming and decimal numbers.
use vstd::prelude::*;

verus! {

/// `p` is a prefix of `s`.
pub open spec fn is_prefix(p: Seq<char>, s: Seq<char>) -> bool {
    p.len() <= s.len() && s.subrange(0, p.len() as int) == p
}

/// `p` is a suffix of `s`.
pub open spec fn is_suffix(p: Seq<char>, s: Seq<char>) -> bool {
    p.len() <= s.len() && s.subrange(s.len() - p.len(), s.len() as int) == p
}

/// `n` occurs in `h` starting at index `i`.
pub open spec fn occurs_at(h: Seq<char>, n: Seq<char>, i: int) -> bool {
    0 <= i && i + n.len() <= h.len() && h.subrange(i, i + n.len()) == n
}

/// `n` occurs somewhere in `h` (the empty sequence occurs in every `h`).
pub open spec fn contains_seq(h: Seq<char>, n: Seq<char>) -> bool {
    exists|i: int| #[trigger] occurs_at(h, n, i)
}

/// The ASCII lowercase of a character; every other character is unchanged.
pub open spec fn ascii_lower(c: char) -> char {
    if 'A' <= c && c <= 'Z' {
        ((c as u32) + 32) as char
    } else {
        c
    }
}

/// Equal ignoring ASCII case.
pub open spec fn eq_ignore_ascii_case_spec(a: Seq<char>, b: Seq<char>) -> bool {
    a.len() == b.len() && forall|i: int| 0 <= i < a.len() ==> #[trigger] ascii_lower(a[i])
        == ascii_lower(b[i])
}

/// Unicode lowercase of a string, as `str::to_lowercase` computes it.
pub uninterp spec fn lowercase(s: Seq<char>) -> Seq<char>;

/// Calls `str::to_lowercase`: the result is the Unicode lowercase of `s`, named
/// [`lowercase`]; the Unicode case tables it applies are not spelled out here.
/// Stated besides is what std documents: every character lowercases to one
/// or more characters, so the result is empty exactly when `s` is.
#[verifier::external_body]
pub(crate) fn to_lowercase(s: &str) -> (r: String)
    ensures
        r@ == lowercase(s@),
        r@.len() == 0 <==> s@.len() == 0,
{
    s.to_lowercase()
}

/// Calls `String::push`: appends one character.
#[verifier::external_body]
pub(crate) fn push_char(s: &mut String, c: char)
    ensures
        final(s)@ == old(s)@.push(c),
{
    s.push(c)
}

/// The characters of `s`, in order.
pub fn chars_of(s: &str) -> (v: Vec<char>)
    ensures
        v@ == s@,
{
    let n = s.unicode_len();
    let mut v: Vec<char> = Vec::new();
    let mut i: usize = 0;
    while i < n
        invariant
            n == s@.len(),
            i <= n,
            v@ == s@.subrange(0, i as int),
        decreases n - i,
    {
        v.push(s.get_char(i));
        i = i + 1;
    }
    v
}

/// A `String` holding exactly the characters of `v`.
pub fn string_from_chars(v: &Vec<char>) -> (s: String)
    ensures
        s@ == v@,
{
    let mut s = String::new();
    let mut i: usize = 0;
    while i < v.len()
        invariant
            i <= v.len(),
            s@ == v@.subrange(0, i as int),
        decreases v.len() - i,
    {
        push_char(&mut s, v[i]);
        i = i + 1;
    }
    s
}

/// Whether `p` is a prefix of `s`.
pub fn starts_with_chars(s: &Vec<char>, p: &Vec<char>) -> (r: bool)
    ensures
        r == is_prefix(p@, s@),
{
    if p.len() > s.len() {
        return false;
    }
    let mut i: usize = 0;
    while i < p.len()
        invariant
            p.len() <= s.len(),
            i <= p.len(),
            forall|k: int| 0 <= k < i ==> s@[k] == p@[k],
        decreases p.len() - i,
    {
        if s[i] != p[i] {
            assert(s@.subrange(0, p.len() as int)[i as int] != p@[i as int]);
            return false;
        }
        i = i + 1;
    }
    assert(s@.subrange(0, p.len() as int) =~= p@);
    true
}

/// Whether `n` occurs in `h` at index `at`.
fn matches_at(h: &Vec<char>, n: &Vec<char>, at: usize) -> (r: bool)
    requires
        at + n.len() <= h.len(),
    ensures
        r == occurs_at(h@, n@, at as int),
{
    let mut j: usize = 0;
    while j < n.len()
        invariant
            at + n.len() <= h.len(),
            j <= n.len(),
            forall|k: int| 0 <= k < j ==> h@[at + k] == n@[k],
        decreases n.len() - j,
    {
        if h[at + j] != n[j] {
            assert(h@.subrange(at as int, at + n.len())[j as int] != n@[j as int]);
            return false;
        }
        j = j + 1;
    }
    assert(h@.subrange(at as int, at + n.len()) =~= n@);
    true
}

/// Whether `n` occurs anywhere in `h`.
pub fn contains_chars(h: &Vec<char>, n: &Vec<char>) -> (r: bool)
    ensures
        r == contains_seq(h@, n@),
{
    if n.len() > h.len() {
        assert forall|i: int| !occurs_at(h@, n@, i) by {}
        return false;
    }
    let last = h.len() - n.len();
    let mut i: usize = 0;
    while i < last
        invariant
            last == h.len() - n.len(),
            n.len() <= h.len(),
            i <= last,
            forall|k: int| 0 <= k < i ==> !occurs_at(h@, n@, k),
        decreases last - i,
    {
        if matches_at(h, n, i) {
            return true;
        }
        i = i + 1;
    }
    if matches_at(h, n, last) {
        return true;
    }
    assert forall|k: int| !occurs_at(h@, n@, k) by {
        if 0 <= k <= last {
        }
    }
    false
}

/// Whether `needle` occurs in `hay`.
pub fn str_contains(hay: &str, needle: &str) -> (r: bool)
    ensures
        r == contains_seq(hay@, needle@),
{
    contains_chars(&chars_of(hay), &chars_of(needle))
}

/// `s` without the prefix `p`, or `None` when `s` does not start with `p`.
pub fn strip_prefix_str<'a>(s: &'a str, p: &str) -> (r: Option<&'a str>)
    ensures
        r is Some <==> is_prefix(p@, s@),
        r matches Some(rest) ==> s@ == p@ + rest@,
{
    let sv = chars_of(s);
    let pv = chars_of(p);
    if starts_with_chars(&sv, &pv) {
        let rest = s.substring_char(pv.len(), sv.len());
        assert(s@ =~= p@ + rest@);
        Some(rest)
    } else {
        None
    }
}

/// The ASCII lowercase of `c`.
pub fn lower_ascii_char(c: char) -> (r: char)
    ensures
        r == ascii_lower(c),
{
    if 'A' <= c && c <= 'Z' {
        let code: u32 = (c as u32) + 32;
        assert('a' as u32 <= code <= 'z' as u32);
        let r = char_from_ascii_letter(code);
        r
    } else {
        c
    }
}

/// The lowercase letter with code `code`, which lies in `'a'..='z'`.
fn char_from_ascii_letter(code: u32) -> (c: char)
    requires
        97 <= code <= 122,
    ensures
        c as u32 == code,
        c == code as char,
{
    let b: u8 = code as u8;
    b as char
}

/// Whether `a` and `b` are equal ignoring ASCII case.
pub fn eq_ignore_ascii_case_chars(a: &Vec<char>, b: &Vec<char>) -> (r: bool)
    ensures
        r == eq_ignore_ascii_case_spec(a@, b@),
{
    if a.len() != b.len() {
        return false;
    }
    let mut i: usize = 0;
    while i < a.len()
        invariant
            a.len() == b.len(),
            i <= a.len(),
            forall|k: int| 0 <= k < i ==> #[trigger] ascii_lower(a@[k]) == ascii_lower(b@[k]),
        decreases a.len() - i,
    {
        if lower_ascii_char(a[i]) != lower_ascii_char(b[i]) {
            return false;
        }
        i = i + 1;
    }
    true
}

/// Whether `a` and `b` are equal ignoring ASCII case.
pub fn eq_ignore_ascii_case(a: &str, b: &str) -> (r: bool)
    ensures
        r == eq_ignore_ascii_case_spec(a@, b@),
{
    eq_ignore_ascii_case_chars(&chars_of(a), &chars_of(b))
}

/// Whether `a` and `b` hold the same characters.
pub fn chars_equal(a: &Vec<char>, b: &Vec<char>) -> (r: bool)
    ensures
        r == (a@ == b@),
{
    if a.len() != b.len() {
        return false;
    }
    let mut i: usize = 0;
    while i < a.len()
        invariant
            a.len() == b.len(),
            i <= a.len(),
            forall|k: int| 0 <= k < i ==> a@[k] == b@[k],
        decreases a.len() - i,
    {
        if a[i] != b[i] {
            return false;
        }
        i = i + 1;
    }
    assert(a@ =~= b@);
    true
}

/// Whether `a` and `b` hold the same characters.
pub fn str_equal(a: &str, b: &str) -> (r: bool)
    ensures
        r == (a@ == b@),
{
    chars_equal(&chars_of(a), &chars_of(b))
}

/// An owned copy of `s`.
pub fn to_owned_string(s: &str) -> (r: String)
    ensures
        r@ == s@,
{
    s.to_owned()
}

/// The characters `char::is_whitespace` accepts: those with the Unicode
/// `White_Space` property.
pub open spec fn is_white_space(c: char) -> bool {
    let u = c as u32;
    ||| 0x09 <= u <= 0x0D
    ||| u == 0x20
    ||| u == 0x85
    ||| u == 0xA0
    ||| u == 0x1680
    ||| 0x2000 <= u <= 0x200A
    ||| u == 0x2028
    ||| u == 0x2029
    ||| u == 0x202F
    ||| u == 0x205F
    ||| u == 0x3000
}

/// Whether `c` is Unicode white space.
pub fn is_whitespace(c: char) -> (r: bool)
    ensures
        r == is_white_space(c),
{
    let u = c as u32;
    (0x09 <= u && u <= 0x0D) || u == 0x20 || u == 0x85 || u == 0xA0 || u == 0x1680 || (0x2000
        <= u && u <= 0x200A) || u == 0x2028 || u == 0x2029 || u == 0x202F || u == 0x205F || u
        == 0x3000
}

/// `s` without its leading white space.
pub open spec fn trim_start_seq(s: Seq<char>) -> Seq<char>
    decreases s.len(),
{
    if s.len() > 0 && is_white_space(s[0]) {
        trim_start_seq(s.drop_first())
    } else {
        s
    }
}

/// `s` without its trailing white space.
pub open spec fn trim_end_seq(s: Seq<char>) -> Seq<char>
    decreases s.len(),
{
    if s.len() > 0 && is_white_space(s.last()) {
        trim_end_seq(s.drop_last())
    } else {
        s
    }
}

/// `s` without leading and trailing white space, as `str::trim` gives it.
pub open spec fn trim_seq(s: Seq<char>) -> Seq<char> {
    trim_end_seq(trim_start_seq(s))
}

/// `s` with every trailing occurrence of `p` removed, as
/// `str::trim_end_matches` gives it; an empty `p` removes nothing.
pub open spec fn trim_end_matches_seq(s: Seq<char>, p: Seq<char>) -> Seq<char>
    decreases s.len(),
{
    if p.len() > 0 && is_suffix(p, s) {
        trim_end_matches_seq(s.subrange(0, s.len() - p.len()), p)
    } else {
        s
    }
}

/// The characters of `s` from `from` up to `to`.
pub fn sub_chars(s: &Vec<char>, from: usize, to: usize) -> (r: Vec<char>)
    requires
        from <= to <= s.len(),
    ensures
        r@ == s@.subrange(from as int, to as int),
{
    let mut r: Vec<char> = Vec::new();
    let mut i: usize = from;
    while i < to
        invariant
            from <= i <= to <= s.len(),
            r@ == s@.subrange(from as int, i as int),
        decreases to - i,
    {
        r.push(s[i]);
        i = i + 1;
    }
    r
}

/// `s` without leading and trailing white space.
pub fn trim_chars(s: &Vec<char>) -> (r: Vec<char>)
    ensures
        r@ == trim_seq(s@),
{
    let n = s.len();
    let mut i: usize = 0;
    assert(s@.subrange(0, n as int) =~= s@);
    while i < n && is_whitespace(s[i])
        invariant
            i <= n,
            n == s@.len(),
            trim_start_seq(s@) == trim_start_seq(s@.subrange(i as int, n as int)),
        decreases n - i,
    {
        assert(s@.subrange(i as int, n as int).drop_first() =~= s@.subrange(i + 1, n as int));
        i = i + 1;
    }
    assert(trim_start_seq(s@) == s@.subrange(i as int, n as int));
    let mut j: usize = n;
    while j > i && is_whitespace(s[j - 1])
        invariant
            i <= j <= n,
            n == s@.len(),
            trim_seq(s@) == trim_end_seq(s@.subrange(i as int, j as int)),
        decreases j,
    {
        assert(s@.subrange(i as int, j as int).drop_last() =~= s@.subrange(i as int, j - 1));
        j = j - 1;
    }
    sub_chars(s, i, j)
}

/// `s` without leading and trailing white space.
pub fn trim_str(s: &str) -> (r: String)
    ensures
        r@ == trim_seq(s@),
{
    string_from_chars(&trim_chars(&chars_of(s)))
}

/// Whether the first `to` characters of `s` end with `p`.
pub fn ends_with_within(s: &Vec<char>, p: &Vec<char>, to: usize) -> (r: bool)
    requires
        to <= s.len(),
    ensures
        r == is_suffix(p@, s@.subrange(0, to as int)),
{
    if p.len() > to {
        return false;
    }
    let found = matches_at(s, p, to - p.len());
    assert(s@.subrange(0, to as int).subrange(to - p.len(), to as int) =~= s@.subrange(
        to - p.len(),
        to as int,
    ));
    found
}

/// `s` with every trailing occurrence of `p` removed.
pub fn trim_end_matches_chars(s: &Vec<char>, p: &Vec<char>) -> (r: Vec<char>)
    ensures
        r@ == trim_end_matches_seq(s@, p@),
{
    if p.len() == 0 {
        return sub_chars(s, 0, s.len());
    }
    let mut j: usize = s.len();
    assert(s@.subrange(0, j as int) =~= s@);
    while ends_with_within(s, p, j)
        invariant
            j <= s@.len(),
            p@.len() > 0,
            trim_end_matches_seq(s@, p@) == trim_end_matches_seq(s@.subrange(0, j as int), p@),
        decreases j,
    {
        assert(s@.subrange(0, j as int).subrange(0, j - p.len()) =~= s@.subrange(
            0,
            j - p.len(),
        ));
        j = j - p.len();
    }
    sub_chars(s, 0, j)
}

/// `a` sorts before `b`: the first differing character is smaller by code
/// point, or `a` is a proper prefix of `b`. This is the order of `str`, whose
/// byte-wise comparison of UTF-8 agrees with code point order.
pub open spec fn chars_lt(a: Seq<char>, b: Seq<char>) -> bool
    decreases a.len(),
{
    if a.len() == 0 {
        b.len() > 0
    } else if b.len() == 0 {
        false
    } else if a[0] != b[0] {
        a[0] < b[0]
    } else {
        chars_lt(a.drop_first(), b.drop_first())
    }
}

proof fn lemma_chars_lt_skip(a: Seq<char>, b: Seq<char>, i: int)
    requires
        0 <= i <= a.len(),
        i <= b.len(),
        a.subrange(0, i) == b.subrange(0, i),
    ensures
        chars_lt(a, b) == chars_lt(a.subrange(i, a.len() as int), b.subrange(i, b.len() as int)),
    decreases i,
{
    if i > 0 {
        assert(a[0] == a.subrange(0, i)[0]);
        assert(b[0] == b.subrange(0, i)[0]);
        assert(a.drop_first().subrange(0, i - 1) =~= a.subrange(0, i).drop_first());
        assert(b.drop_first().subrange(0, i - 1) =~= b.subrange(0, i).drop_first());
        lemma_chars_lt_skip(a.drop_first(), b.drop_first(), i - 1);
        assert(a.drop_first().subrange(i - 1, a.len() - 1) =~= a.subrange(i, a.len() as int));
        assert(b.drop_first().subrange(i - 1, b.len() - 1) =~= b.subrange(i, b.len() as int));
    } else {
        assert(a.subrange(0, a.len() as int) =~= a);
        assert(b.subrange(0, b.len() as int) =~= b);
    }
}

/// No sequence sorts before itself.
pub proof fn lemma_chars_lt_irreflexive(a: Seq<char>)
    ensures
        !chars_lt(a, a),
    decreases a.len(),
{
    if a.len() > 0 {
        lemma_chars_lt_irreflexive(a.drop_first());
    }
}

/// Of two different sequences, exactly one sorts before the other.
pub proof fn lemma_chars_lt_total(a: Seq<char>, b: Seq<char>)
    ensures
        a != b ==> chars_lt(a, b) || chars_lt(b, a),
        !(chars_lt(a, b) && chars_lt(b, a)),
    decreases a.len(),
{
    if a.len() > 0 && b.len() > 0 && a[0] == b[0] {
        lemma_chars_lt_total(a.drop_first(), b.drop_first());
        if a != b {
            assert(a.drop_first() != b.drop_first()) by {
                if a.drop_first() == b.drop_first() {
                    assert(a =~= seq![a[0]] + a.drop_first());
                    assert(b =~= seq![b[0]] + b.drop_first());
                }
            }
        }
    } else if a.len() == 0 && b.len() == 0 {
        assert(a =~= b);
    }
}

/// The order is transitive.
pub proof fn lemma_chars_lt_transitive(a: Seq<char>, b: Seq<char>, c: Seq<char>)
    requires
        chars_lt(a, b),
        chars_lt(b, c),
    ensures
        chars_lt(a, c),
    decreases a.len(),
{
    if a.len() > 0 && a[0] == b[0] && b[0] == c[0] {
        lemma_chars_lt_transitive(a.drop_first(), b.drop_first(), c.drop_first());
    }
}

/// Whether `a` sorts before `b`.
pub fn chars_less(a: &Vec<char>, b: &Vec<char>) -> (r: bool)
    ensures
        r == chars_lt(a@, b@),
{
    let mut i: usize = 0;
    while i < a.len() && i < b.len() && a[i] == b[i]
        invariant
            i <= a@.len(),
            i <= b@.len(),
            a@.subrange(0, i as int) == b@.subrange(0, i as int),
        decreases a@.len() - i,
    {
        assert(a@.subrange(0, i + 1) =~= a@.subrange(0, i as int).push(a@[i as int]));
        assert(b@.subrange(0, i + 1) =~= b@.subrange(0, i as int).push(b@[i as int]));
        i = i + 1;
    }
    proof {
        lemma_chars_lt_skip(a@, b@, i as int);
    }
    if i == a.len() {
        i < b.len()
    } else if i == b.len() {
        false
    } else {
        assert(a@.subrange(i as int, a@.len() as int)[0] == a@[i as int]);
        assert(b@.subrange(i as int, b@.len() as int)[0] == b@[i as int]);
        a[i] < b[i]
    }
}

/// `a` followed by `b`.
pub fn str_concat(a: &str, b: &str) -> (r: String)
    ensures
        r@ == a@ + b@,
{
    let mut r = to_owned_string(a);
    let bv = chars_of(b);
    let mut i: usize = 0;
    while i < bv.len()
        invariant
            i <= bv@.len(),
            bv@ == b@,
            r@ == a@ + b@.subrange(0, i as int),
        decreases bv@.len() - i,
    {
        push_char(&mut r, bv[i]);
        assert(a@ + b@.subrange(0, i + 1) =~= (a@ + b@.subrange(0, i as int)).push(b@[i as int]));
        i = i + 1;
    }
    assert(b@.subrange(0, b@.len() as int) =~= b@);
    r
}

/// Whether `path` is absolute, as `Path::is_absolute` says on Unix, where
/// this launcher runs: it starts at the root, `/`.
pub(crate) fn path_is_absolute(path: &str) -> (r: bool)
    ensures
        r == (path@.len() > 0 && path@[0] == '/'),
{
    let v = chars_of(path);
    v.len() > 0 && v[0] == '/'
}

/// The path `Path::join` makes of `base` and `part`.
pub uninterp spec fn path_join(base: Seq<char>, part: Seq<char>) -> Seq<char>;

/// Calls `Path::join`. The result is named [`path_join`]; stated besides is
/// what `PathBuf::push` does with a relative part on Unix: it adds a `/`
/// between base and part only when the base is not empty and does not
/// already end in one.
#[verifier::external_body]
pub(crate) fn join_path(base: &str, part: &str) -> (r: String)
    requires
        part@.len() > 0,
        part@[0] != '/',
    ensures
        r@ == path_join(base@, part@),
        base@.len() > 0 && base@.last() != '/' ==> r@ == base@ + "/"@ + part@,
        base@.len() > 0 && base@.last() == '/' ==> r@ == base@ + part@,
        base@.len() == 0 ==> r@ == part@,
{
    std::path::Path::new(base).join(part).to_string_lossy().into_owned()
}

/// Whether `Path`'s equality, which compares paths component by component,
/// holds between `a` and `b`.
pub uninterp spec fn same_path(a: Seq<char>, b: Seq<char>) -> bool;

/// Calls `==` on two `Path`s; the result is named [`same_path`].
#[verifier::external_body]
pub(crate) fn paths_equal(a: &str, b: &str) -> (r: bool)
    ensures
        r == same_path(a@, b@),
{
    std::path::Path::new(a) == std::path::Path::new(b)
}

/// A string value as configuration files are read here: trimmed, and absent
/// when nothing is left.
pub open spec fn cleaned(o: Option<Seq<char>>) -> Option<Seq<char>> {
    match o {
        Some(s) => if trim_seq(s).len() > 0 {
            Some(trim_seq(s))
        } else {
            None
        },
        None => None,
    }
}

/// `o` trimmed, and absent when nothing is left.
pub fn clean(o: &Option<String>) -> (r: Option<String>)
    ensures
        match r {
            Some(s) => Some(s@),
            None => None::<Seq<char>>,
        } == cleaned(
            match *o {
                Some(s) => Some(s@),
                None => None::<Seq<char>>,
            },
        ),
{
    match o {
        Some(s) => {
            let t = trim_str(s.as_str());
            if t.unicode_len() > 0 {
                Some(t)
            } else {
                None
            }
        },
        None => None,
    }
}

/// The ASCII digit for `d` in `0..10`.
pub open spec fn digit_char(d: int) -> char {
    (48 + d) as char
}

/// The decimal digits of a natural number, most significant first.
pub open spec fn digits(n: nat) -> Seq<char>
    decreases n,
{
    if n < 10 {
        seq![digit_char(n as int)]
    } else {
        digits(n / 10).push(digit_char((n % 10) as int))
    }
}

/// An integer in decimal, with a leading `-` when negative, as `Display`
/// writes it.
pub open spec fn decimal(n: int) -> Seq<char> {
    if n < 0 {
        seq!['-'] + digits((0 - n) as nat)
    } else {
        digits(n as nat)
    }
}

pub open spec fn is_digit(c: char) -> bool {
    '0' <= c && c <= '9'
}

pub open spec fn all_digits(s: Seq<char>) -> bool {
    forall|i: int| 0 <= i < s.len() ==> #[trigger] is_digit(s[i])
}

/// The value of a run of decimal digits.
pub open spec fn digits_value(s: Seq<char>) -> int
    decreases s.len(),
{
    if s.len() == 0 {
        0
    } else {
        digits_value(s.drop_last()) * 10 + (s.last() as int - 48)
    }
}

/// `s` read as an `i64` the way `str::parse::<i64>` reads it: an optional
/// `+` or `-`, then at least one ASCII digit, and a value that fits.
pub open spec fn parse_i64_spec(s: Seq<char>) -> Option<i64> {
    if s.len() == 0 {
        None
    } else {
        let signed = s[0] == '+' || s[0] == '-';
        let body = if signed { s.skip(1) } else { s };
        let v = if s[0] == '-' { 0 - digits_value(body) } else { digits_value(body) };
        if body.len() > 0 && all_digits(body) && i64::MIN <= v <= i64::MAX {
            Some(v as i64)
        } else {
            None
        }
    }
}

proof fn lemma_digits(n: nat)
    ensures
        digits(n).len() > 0,
        all_digits(digits(n)),
        digits_value(digits(n)) == n,
    decreases n,
{
    assert(digit_char((n % 10) as int) as int == 48 + (n % 10));
    if n >= 10 {
        lemma_digits(n / 10);
        let d = digits(n);
        assert(d.drop_last() =~= digits(n / 10));
        assert(d.last() == digit_char((n % 10) as int));
        assert(digits_value(d) == digits_value(digits(n / 10)) * 10 + (n % 10));
        assert((n / 10) * 10 + (n % 10) == n);
        assert forall|i: int| 0 <= i < d.len() implies #[trigger] is_digit(d[i]) by {
            if i < d.len() - 1 {
                assert(d[i] == digits(n / 10)[i]);
            }
        }
    } else {
        assert(digits(n).drop_last() =~= Seq::<char>::empty());
        assert(digits(n).last() == digit_char(n as int));
        assert(digits_value(digits(n)) == digits_value(Seq::<char>::empty()) * 10 + n);
        assert(is_digit(digits(n)[0]));
    }
}

/// Reading back what [`decimal`] writes gives the number again.
pub proof fn decimal_round_trips(n: i64)
    ensures
        parse_i64_spec(decimal(n as int)) == Some(n),
{
    if n < 0 {
        let m = (0 - n) as nat;
        lemma_digits(m);
        let s = decimal(n as int);
        assert(s.skip(1) =~= digits(m));
        assert(s[0] == '-');
    } else {
        lemma_digits(n as nat);
        let s = decimal(n as int);
        assert(is_digit(s[0]));
    }
}

proof fn lemma_digits_value_monotone(s: Seq<char>, i: int)
    requires
        all_digits(s),
        0 <= i <= s.len(),
    ensures
        digits_value(s.subrange(0, i)) <= digits_value(s),
        0 <= digits_value(s.subrange(0, i)),
    decreases s.len() - i,
{
    if i < s.len() {
        lemma_digits_value_monotone(s, i + 1);
        let a = s.subrange(0, i);
        let b = s.subrange(0, i + 1);
        assert(b.drop_last() =~= a);
        assert(is_digit(s[i]));
        lemma_digits_value_nonneg(a);
    } else {
        assert(s.subrange(0, i) =~= s);
        lemma_digits_value_nonneg(s);
    }
}

proof fn lemma_digits_value_nonneg(s: Seq<char>)
    requires
        all_digits(s),
    ensures
        0 <= digits_value(s),
    decreases s.len(),
{
    if s.len() > 0 {
        assert(is_digit(s[s.len() - 1]));
        assert forall|i: int| 0 <= i < s.drop_last().len() implies #[trigger] is_digit(
            s.drop_last()[i],
        ) by {
            assert(s.drop_last()[i] == s[i]);
        }
        lemma_digits_value_nonneg(s.drop_last());
    }
}

/// Appends the decimal digits of `n`.
pub fn push_digits(s: &mut String, n: u64)
    ensures
        final(s)@ == old(s)@ + digits(n as nat),
    decreases n,
{
    if n >= 10 {
        push_digits(s, n / 10);
    }
    let d: u8 = (n % 10) as u8;
    let c: char = (48u8 + d) as char;
    push_char(s, c);
    proof {
        if n >= 10 {
            assert(final(s)@ =~= old(s)@ + digits(n as nat));
        } else {
            assert(final(s)@ =~= old(s)@ + digits(n as nat));
        }
    }
}

/// Appends `n` in decimal.
pub fn push_decimal(s: &mut String, n: i64)
    ensures
        final(s)@ == old(s)@ + decimal(n as int),
{
    if n < 0 {
        push_char(s, '-');
        let m: u64 = if n == i64::MIN {
            9223372036854775808u64
        } else {
            (0 - n) as u64
        };
        push_digits(s, m);
        assert(final(s)@ =~= old(s)@ + decimal(n as int));
    } else {
        push_digits(s, n as u64);
    }
}

/// Reads `s` as an `i64` the way `str::parse::<i64>` does.
pub fn parse_i64(s: &str) -> (r: Option<i64>)
    ensures
        r == parse_i64_spec(s@),
{
    let v = chars_of(s);
    if v.len() == 0 {
        return None;
    }
    let first = v[0];
    let negative = first == '-';
    let start: usize = if first == '+' || first == '-' { 1 } else { 0 };
    let ghost body = if start == 1 { s@.skip(1) } else { s@ };
    if start >= v.len() {
        return None;
    }
    let mut acc: u128 = 0;
    let mut i: usize = start;
    let mut overflow = false;
    while i < v.len()
        invariant
            v@ == s@,
            start <= i <= v.len(),
            start == 0 || start == 1,
            v@.len() > 0,
            first == s@[0],
            negative == (first == '-'),
            (start == 1) == (first == '+' || first == '-'),
            body == (if start == 1 { s@.skip(1) } else { s@ }),
            body == v@.subrange(start as int, v@.len() as int),
            all_digits(v@.subrange(start as int, i as int)),
            !overflow ==> acc == digits_value(v@.subrange(start as int, i as int)),
            !overflow ==> acc <= 9223372036854775808,
            overflow ==> digits_value(v@.subrange(start as int, i as int)) > 9223372036854775808,
        decreases v.len() - i,
    {
        let c = v[i];
        if !('0' <= c && c <= '9') {
            proof {
                assert(body[i - start] == c);
                assert(!is_digit(body[i - start]));
            }
            return None;
        }
        let ghost prefix = v@.subrange(start as int, i as int);
        let ghost next = v@.subrange(start as int, i + 1);
        proof {
            assert(next.drop_last() =~= prefix);
            assert(all_digits(next)) by {
                assert forall|k: int| 0 <= k < next.len() implies #[trigger] is_digit(next[k]) by {
                    if k < prefix.len() {
                        assert(next[k] == prefix[k]);
                    }
                }
            }
            lemma_digits_value_nonneg(prefix);
        }
        if !overflow {
            let d: u128 = (c as u32 - 48) as u128;
            acc = acc * 10 + d;
            if acc > 9223372036854775808 {
                overflow = true;
            }
        }
        i = i + 1;
    }
    proof {
        assert(v@.subrange(start as int, v@.len() as int) =~= body);
        if start == 1 {
            assert(body =~= s@.skip(1));
        }
    }
    if overflow {
        return None;
    }
    if negative {
        let value: i128 = 0 - (acc as i128);
        Some(value as i64)
    } else {
        if acc > 9223372036854775807 {
            None
        } else {
            Some(acc as i64)
        }
    }
}

/// The Euclidean remainder by ten of a negative number.
pub proof fn lemma_negative_mod_ten(a: int)
    requires
        a < 0,
    ensures
        (0 - a) % 10 == 0 ==> a % 10 == 0,
        (0 - a) % 10 != 0 ==> a % 10 == 10 - (0 - a) % 10,
{
    let b = (0 - a) % 10;
    let q = (0 - a) / 10;
    if b == 0 {
        assert(a == (0 - q) * 10);
    } else {
        assert(a == (0 - q - 1) * 10 + (10 - b));
    }
}

} // verus!
