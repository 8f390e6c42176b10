//! Text helpers: the few standard-library string operations the client relies on,
//! each behind a small contract, plus the spec functions those contracts use.

use vstd::prelude::*;

verus! {

/// The characters of each string in a sequence of strings.
pub open spec fn views(v: Seq<String>) -> Seq<Seq<char>> {
    v.map_values(|s: String| s@)
}

/// What `str::to_lowercase` returns for a string (full Unicode lower-casing).
pub uninterp spec fn lowercase(s: Seq<char>) -> Seq<char>;

/// Lower-cases `s` with `str::to_lowercase`.
/// Trusted: the result is the Unicode lower-case form of `s`, named `lowercase`.
#[verifier::external_body]
pub(crate) fn to_lower(s: &str) -> (r: String)
    ensures
        r@ == lowercase(s@),
{
    s.to_lowercase()
}

/// Whether two strings hold the same characters.
pub fn str_eq(a: &str, b: &str) -> (r: bool)
    ensures
        r == (a@ == b@),
{
    let n = a.unicode_len();
    if n != b.unicode_len() {
        return false;
    }
    let mut i: usize = 0;
    while i < n
        invariant
            n == a@.len(),
            n == b@.len(),
            i <= n,
            forall|j: int| 0 <= j < i ==> a@[j] == b@[j],
        decreases n - i,
    {
        if a.get_char(i) != b.get_char(i) {
            return false;
        }
        i = i + 1;
    }
    assert(a@ =~= b@);
    true
}

/// The decimal digit character for `d` (expects `d < 10`).
pub open spec fn digit_char(d: nat) -> char {
    (48 + d) as char
}

/// The decimal representation of `n`, without sign or leading zeros.
pub open spec fn decimal(n: nat) -> Seq<char>
    decreases n,
{
    if n < 10 {
        seq![digit_char(n)]
    } else {
        decimal(n / 10).push(digit_char(n % 10))
    }
}

/// Formats a port number with `u16::to_string`.
/// Trusted: the result is the decimal representation of `n`.
#[verifier::external_body]
pub(crate) fn u16_to_string(n: u16) -> (r: String)
    ensures
        r@ == decimal(n as nat),
{
    n.to_string()
}

/// Formats a count with `usize::to_string`.
/// Trusted: the result is the decimal representation of `n`.
#[verifier::external_body]
pub(crate) fn usize_to_string(n: usize) -> (r: String)
    ensures
        r@ == decimal(n as nat),
{
    n.to_string()
}

/// `a` followed by `b`.
pub fn cat(a: String, b: &str) -> (r: String)
    ensures
        r@ == a@ + b@,
{
    a.concat(b)
}

/// A fresh string holding the characters of `s`.
pub fn owned(s: &str) -> (r: String)
    ensures
        r@ == s@,
{
    String::from_str(s)
}

/// The code of `c` with ASCII upper-case letters mapped to lower case
/// (what `char::to_ascii_lowercase` does).
pub open spec fn ascii_fold(c: char) -> u32 {
    if 65 <= (c as u32) && (c as u32) <= 90 {
        ((c as u32) + 32) as u32
    } else {
        c as u32
    }
}

/// `a` and `b` are equal when ASCII letters are compared without regard to case
/// (what `str::eq_ignore_ascii_case` decides).
pub open spec fn ascii_case_eq(a: Seq<char>, b: Seq<char>) -> bool {
    a.len() == b.len() && forall|i: int| 0 <= i < a.len() ==> #[trigger] ascii_fold(a[i]) == ascii_fold(b[i])
}

fn fold_code(c: char) -> (r: u32)
    ensures
        r == ascii_fold(c),
{
    let x = c as u32;
    if 65 <= x && x <= 90 {
        x + 32
    } else {
        x
    }
}

/// Compares two strings, ignoring the case of ASCII letters.
pub fn eq_ignore_ascii_case(a: &str, b: &str) -> (r: bool)
    ensures
        r == ascii_case_eq(a@, b@),
{
    let n = a.unicode_len();
    if n != b.unicode_len() {
        return false;
    }
    let mut i: usize = 0;
    while i < n
        invariant
            n == a@.len(),
            n == b@.len(),
            i <= n,
            forall|j: int| 0 <= j < i ==> #[trigger] ascii_fold(a@[j]) == ascii_fold(b@[j]),
        decreases n - i,
    {
        if fold_code(a.get_char(i)) != fold_code(b.get_char(i)) {
            return false;
        }
        i = i + 1;
    }
    true
}

/// Whether the first character of `s` is `c`.
pub fn starts_with_char(s: &str, c: char) -> (r: bool)
    ensures
        r == (s@.len() > 0 && s@[0] == c),
{
    s.unicode_len() > 0 && s.get_char(0) == c
}

/// What `str::split_whitespace` yields for a string: its maximal runs of
/// non-whitespace characters (Unicode `White_Space`), in order.
pub uninterp spec fn whitespace_tokens(s: Seq<char>) -> Seq<Seq<char>>;

/// Splits `s` at whitespace with `str::split_whitespace`.
/// Trusted: the pieces are what `split_whitespace` yields, named `whitespace_tokens`.
#[verifier::external_body]
pub(crate) fn split_whitespace(s: &str) -> (r: Vec<String>)
    ensures
        views(r@) == whitespace_tokens(s@),
{
    let mut r = Vec::new();
    for t in s.split_whitespace() {
        r.push(t.to_string());
    }
    r
}

/// Whether `c` occurs in `s`.
pub fn contains_char(s: &str, c: char) -> (r: bool)
    ensures
        r == s@.contains(c),
{
    let n = s.unicode_len();
    let mut i: usize = 0;
    while i < n
        invariant
            n == s@.len(),
            i <= n,
            forall|j: int| 0 <= j < i ==> s@[j] != c,
        decreases n - i,
    {
        if s.get_char(i) == c {
            assert(s@[i as int] == c);
            return true;
        }
        i = i + 1;
    }
    false
}

/// Appends `c` to `s` with `String::push`.
/// Trusted: the string gains `c` at its end.
#[verifier::external_body]
pub(crate) fn push_char(s: &mut String, c: char)
    ensures
        final(s)@ == old(s)@.push(c),
{
    s.push(c);
}

/// Removes the last character of `s` with `String::pop`.
/// Trusted: an empty string stays empty and yields `None`; otherwise the last
/// character is removed and returned.
#[verifier::external_body]
pub(crate) fn pop_char(s: &mut String) -> (r: Option<char>)
    ensures
        old(s)@.len() == 0 ==> r is None && final(s)@ == old(s)@,
        old(s)@.len() > 0 ==> r == Some(old(s)@.last()) && final(s)@ == old(s)@.drop_last(),
{
    s.pop()
}

/// `p` occurs in `s` as a run of consecutive characters.
pub open spec fn has_substring(s: Seq<char>, p: Seq<char>) -> bool {
    exists|i: int| 0 <= i && i + p.len() <= s.len() && #[trigger] s.subrange(i, i + p.len()) == p
}

/// Whether `p` occurs in `s` (what `str::contains` decides for a string
/// pattern).
pub fn contains_str(s: &str, p: &str) -> (r: bool)
    ensures
        r == has_substring(s@, p@),
{
    let n = s.unicode_len();
    let m = p.unicode_len();
    if m == 0 {
        assert(s@.subrange(0int, 0int + p@.len()) =~= p@);
        return true;
    }
    if m > n {
        proof {
            if has_substring(s@, p@) {
                let i = choose|i: int| 0 <= i && i + p@.len() <= s@.len() && #[trigger] s@.subrange(i, i + p@.len()) == p@;
            }
        }
        return false;
    }
    let mut i: usize = 0;
    while i <= n - m
        invariant
            n == s@.len(),
            m == p@.len(),
            1 <= m <= n,
            i <= n - m + 1,
            forall|k: int| 0 <= k < i ==> #[trigger] s@.subrange(k, k + m) != p@,
        decreases n - m + 1 - i,
    {
        let mut j: usize = 0;
        let mut same = true;
        while j < m && same
            invariant
                n == s@.len(),
                m == p@.len(),
                i + m <= n,
                j <= m,
                same ==> forall|t: int| 0 <= t < j ==> s@[i + t] == p@[t],
                !same ==> s@.subrange(i as int, i + m) != p@,
            decreases m - j + (if same { 1int } else { 0int }),
        {
            if s.get_char(i + j) != p.get_char(j) {
                same = false;
                assert(s@.subrange(i as int, i + m)[j as int] != p@[j as int]);
            } else {
                j = j + 1;
            }
        }
        if same {
            assert(s@.subrange(i as int, i + m) =~= p@);
            return true;
        }
        i = i + 1;
    }
    proof {
        if has_substring(s@, p@) {
            let k = choose|k: int| 0 <= k && k + p@.len() <= s@.len() && #[trigger] s@.subrange(k, k + p@.len()) == p@;
            assert(k < i);
        }
    }
    false
}

/// The position of the first space in `s`, if any.
pub open spec fn first_space(s: Seq<char>) -> Option<int> {
    if s.contains(' ') {
        Some(s.index_of_first(' ').unwrap())
    } else {
        None
    }
}

/// The pieces `str::splitn(n, ' ')` yields: split at each of the first
/// `n - 1` spaces, the last piece holding the rest.
pub open spec fn split_spaces(s: Seq<char>, n: nat) -> Seq<Seq<char>>
    decreases n,
{
    if n == 0 {
        Seq::empty()
    } else if n == 1 {
        seq![s]
    } else {
        match first_space(s) {
            None => seq![s],
            Some(i) => seq![s.take(i)] + split_spaces(s.skip(i + 1), (n - 1) as nat),
        }
    }
}

/// Position of the first space of `s`.
fn find_space(s: &str) -> (r: Option<usize>)
    ensures
        match r {
            Some(i) => first_space(s@) == Some(i as int) && i < s@.len() && s@[i as int] == ' ',
            None => first_space(s@) is None,
        },
{
    let n = s.unicode_len();
    let mut i: usize = 0;
    while i < n
        invariant
            n == s@.len(),
            i <= n,
            forall|j: int| 0 <= j < i ==> s@[j] != ' ',
        decreases n - i,
    {
        if s.get_char(i) == ' ' {
            proof {
                assert(s@.contains(' '));
                s@.index_of_first_ensures(' ');
                let k = s@.index_of_first(' ').unwrap();
                if k > i {
                    assert(s@[i as int] == ' ');
                }
            }
            return Some(i);
        }
        i = i + 1;
    }
    proof {
        s@.index_of_first_ensures(' ');
        if s@.contains(' ') {
            let k = choose|k: int| 0 <= k < s@.len() && s@[k] == ' ';
        }
    }
    None
}

/// Splits `s` at its first `n - 1` spaces (what `str::splitn(n, ' ')` yields).
pub fn splitn_space(s: &str, n: usize) -> (r: Vec<String>)
    ensures
        views(r@) == split_spaces(s@, n as nat),
    decreases n,
{
    if n == 0 {
        assert(views(Seq::<String>::empty()) =~= split_spaces(s@, 0));
        return Vec::new();
    }
    let mut r: Vec<String> = Vec::new();
    if n == 1 {
        r.push(owned(s));
        assert(views(r@) =~= split_spaces(s@, 1));
        return r;
    }
    match find_space(s) {
        None => {
            r.push(owned(s));
            assert(views(r@) =~= split_spaces(s@, n as nat));
            r
        },
        Some(i) => {
            let len = s.unicode_len();
            let head = s.substring_char(0, i);
            let tail = s.substring_char(i + 1, len);
            assert(head@ =~= s@.take(i as int));
            assert(tail@ =~= s@.skip(i + 1));
            let rest = splitn_space(tail, n - 1);
            r.push(owned(head));
            let mut k: usize = 0;
            let ghost hv = views(r@);
            while k < rest.len()
                invariant
                    k <= rest@.len(),
                    hv == seq![head@],
                    views(r@) == hv + views(rest@).take(k as int),
                decreases rest@.len() - k,
            {
                let ghost old_r = r@;
                let piece = owned(rest[k].as_str());
                r.push(piece);
                proof {
                    assert(views(r@) =~= views(old_r).push(rest@[k as int]@));
                    assert(views(rest@)[k as int] == rest@[k as int]@);
                    assert(views(rest@).take(k + 1) =~= views(rest@).take(k as int).push(rest@[k as int]@));
                    assert(views(r@) =~= hv + views(rest@).take(k + 1));
                }
                k = k + 1;
            }
            assert(views(rest@).take(k as int) =~= views(rest@));
            assert(views(r@) =~= split_spaces(s@, n as nat));
            r
        },
    }
}

/// The part of `s` after its first space, if it has one (what
/// `s.splitn(2, ' ').nth(1)` gives).
pub fn after_first_space(s: &str) -> (r: Option<String>)
    ensures
        match first_space(s@) {
            Some(i) => r matches Some(t) && t@ == s@.skip(i + 1),
            None => r is None,
        },
{
    match find_space(s) {
        Some(i) => {
            let len = s.unicode_len();
            let t = s.substring_char(i + 1, len);
            Some(owned(t))
        },
        None => None,
    }
}

/// The strings of `v` joined with single spaces (what `join(" ")` gives).
pub open spec fn join_spaces(v: Seq<Seq<char>>) -> Seq<char>
    decreases v.len(),
{
    if v.len() == 0 {
        Seq::empty()
    } else if v.len() == 1 {
        v[0]
    } else {
        join_spaces(v.drop_last()) + " "@ + v.last()
    }
}

/// Joins strings with single spaces.
pub fn join_with_spaces(v: &Vec<String>) -> (r: String)
    ensures
        r@ == join_spaces(views(v@)),
{
    let mut r = String::new();
    let mut i: usize = 0;
    while i < v.len()
        invariant
            i <= v@.len(),
            r@ == join_spaces(views(v@).take(i as int)),
        decreases v@.len() - i,
    {
        let ghost t = views(v@).take(i + 1);
        assert(t.drop_last() =~= views(v@).take(i as int));
        if i == 0 {
            r = owned(v[0].as_str());
            assert(t =~= seq![v@[0]@]);
        } else {
            r = cat(cat(r, " "), v[i].as_str());
        }
        i = i + 1;
    }
    assert(views(v@).take(i as int) =~= views(v@));
    r
}

/// What `str::trim` leaves of a string: the string without its leading and
/// trailing whitespace (Unicode `White_Space`).
pub uninterp spec fn trimmed(s: Seq<char>) -> Seq<char>;

/// Trims `s` with `str::trim`.
/// Trusted: the result is what `trim` leaves, named `trimmed`.
#[verifier::external_body]
pub(crate) fn trim(s: &str) -> (r: String)
    ensures
        r@ == trimmed(s@),
{
    s.trim().to_string()
}

/// An ASCII decimal digit.
pub open spec fn is_digit(c: char) -> bool {
    48 <= (c as u32) && (c as u32) <= 57
}

/// The number a string of decimal digits denotes.
pub open spec fn digits_value(s: Seq<char>) -> nat
    decreases s.len(),
{
    if s.len() == 0 {
        0
    } else {
        digits_value(s.drop_last()) * 10 + ((s.last() as u32) - 48) as nat
    }
}

/// Every character of `d` is a decimal digit.
pub open spec fn all_digits(d: Seq<char>) -> bool {
    forall|i: int| 0 <= i < d.len() ==> #[trigger] is_digit(d[i])
}

/// `s` without a leading `+`.
pub open spec fn unsigned_part(s: Seq<char>) -> Seq<char> {
    if s.len() > 0 && s[0] == '+' { s.drop_first() } else { s }
}

/// What `str::parse::<u16>` accepts: an optional `+`, then one or more
/// decimal digits denoting at most 65535.
pub open spec fn parsed_u16(s: Seq<char>) -> Option<u16> {
    let d = unsigned_part(s);
    if d.len() > 0 && all_digits(d) && digits_value(d) <= 65535 {
        Some(digits_value(d) as u16)
    } else {
        None
    }
}

/// Parses a port number the way `str::parse::<u16>` does.
pub fn parse_u16(s: &str) -> (r: Option<u16>)
    ensures
        r == parsed_u16(s@),
{
    let n = s.unicode_len();
    let mut start: usize = 0;
    if n > 0 && s.get_char(0) == '+' {
        start = 1;
    }
    let ghost d = unsigned_part(s@);
    assert(d =~= s@.skip(start as int));
    if start >= n {
        return None;
    }
    let mut i: usize = start;
    let mut acc: u32 = 0;
    while i < n
        invariant
            n == s@.len(),
            start <= i <= n,
            d == s@.skip(start as int),
            d == unsigned_part(s@),
            forall|k: int| 0 <= k < i - start ==> #[trigger] is_digit(d[k]),
            acc as nat == if digits_value(d.take(i - start)) < 65536 { digits_value(d.take(i - start)) } else { 65536 },
        decreases n - i,
    {
        let c = s.get_char(i);
        assert(d[i - start] == c);
        if !((c as u32) >= 48 && (c as u32) <= 57) {
            assert(!is_digit(d[i - start]));
            return None;
        }
        let dig = (c as u32) - 48;
        let ghost t = d.take(i - start + 1);
        assert(t.drop_last() =~= d.take(i - start));
        assert(t.last() == c);
        if acc >= 6554 {
            acc = 65536;
        } else {
            let next = acc * 10 + dig;
            acc = if next > 65536 { 65536 } else { next };
        }
        i = i + 1;
    }
    assert(d.take(n - start) =~= d);
    if acc > 65535 {
        None
    } else {
        Some(acc as u16)
    }
}

} // verus!
