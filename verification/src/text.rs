//! Text primitives over character sequences: substring search, lowercase,
//! splitting, decimal rendering and parsing.

use vstd::prelude::*;

verus! {

/// `p` occurs in `s` starting at character position `i`.
pub open spec fn occurs_at(s: Seq<char>, p: Seq<char>, i: int) -> bool {
    0 <= i && i + p.len() <= s.len() && s.subrange(i, i + p.len()) == p
}

/// `p` is a substring of `s` (the empty sequence is a substring of everything).
pub open spec fn contains_sub(s: Seq<char>, p: Seq<char>) -> bool {
    exists|i: int| occurs_at(s, p, i)
}

/// Some phrase of `ps` is a substring of `s`.
pub open spec fn contains_any(s: Seq<char>, ps: Seq<Seq<char>>) -> bool {
    exists|k: int| 0 <= k < ps.len() && contains_sub(s, #[trigger] ps[k])
}

/// The views of a sequence of strings.
pub open spec fn string_views(v: Seq<String>) -> Seq<Seq<char>> {
    v.map_values(|x: String| x@)
}

/// The views of a sequence of string slices.
pub open spec fn str_views(v: Seq<&str>) -> Seq<Seq<char>> {
    v.map_values(|x: &str| x@)
}

/// The characters of `s`, in order.
pub fn chars_of(s: &str) -> (res: Vec<char>)
    ensures
        res@ == s@,
{
    let mut res: Vec<char> = Vec::new();
    for c in it: s.chars()
        invariant
            res@ == it.seq().take(it.index() as int),
    {
        res.push(c);
    }
    res
}

/// Whether `p` occurs in `s` at position `i`.
pub fn matches_at(s: &Vec<char>, p: &Vec<char>, i: usize) -> (r: bool)
    ensures
        r == occurs_at(s@, p@, i as int),
{
    if i > s.len() || p.len() > s.len() - i {
        return false;
    }
    let mut k: usize = 0;
    while k < p.len()
        invariant
            i + p.len() <= s.len(),
            k <= p.len(),
            forall|j: int| 0 <= j < k ==> s@[i + j] == p@[j],
        decreases p.len() - k,
    {
        if s[i + k] != p[k] {
            assert(s@.subrange(i as int, i + p.len())[k as int] != p@[k as int]);
            return false;
        }
        k = k + 1;
    }
    assert(s@.subrange(i as int, i + p.len()) =~= p@);
    true
}

/// The first position at which `p` occurs in `s`, if any.
pub fn find_sub(s: &Vec<char>, p: &Vec<char>) -> (r: Option<usize>)
    ensures
        r matches Some(i) ==> occurs_at(s@, p@, i as int) && forall|j: int|
            0 <= j < i ==> !occurs_at(s@, p@, j),
        r is None ==> !contains_sub(s@, p@),
{
    if p.len() > s.len() {
        return None;
    }
    let mut i: usize = 0;
    while i <= s.len() - p.len()
        invariant
            p.len() <= s.len(),
            i <= s.len() - p.len() + 1,
            forall|j: int| 0 <= j < i ==> !occurs_at(s@, p@, j),
        decreases s.len() - p.len() + 1 - i,
    {
        if matches_at(s, p, i) {
            return Some(i);
        }
        if i == s.len() - p.len() {
            return None;
        }
        i = i + 1;
    }
    None
}

/// Whether `p` is a substring of `s`.
pub fn seq_contains(s: &Vec<char>, p: &Vec<char>) -> (r: bool)
    ensures
        r == contains_sub(s@, p@),
{
    find_sub(s, p).is_some()
}

/// Whether the string slice `p` is a substring of `s`.
pub fn str_contains(s: &Vec<char>, p: &str) -> (r: bool)
    ensures
        r == contains_sub(s@, p@),
{
    let pc = chars_of(p);
    seq_contains(s, &pc)
}

/// Whether some phrase of `ps` is a substring of `s`.
pub fn contains_any_of(s: &Vec<char>, ps: &Vec<&str>) -> (r: bool)
    ensures
        r == contains_any(s@, str_views(ps@)),
{
    let mut k: usize = 0;
    while k < ps.len()
        invariant
            k <= ps.len(),
            forall|j: int| 0 <= j < k ==> !contains_sub(s@, #[trigger] str_views(ps@)[j]),
        decreases ps.len() - k,
    {
        if str_contains(s, ps[k]) {
            assert(contains_sub(s@, str_views(ps@)[k as int]));
            return true;
        }
        k = k + 1;
    }
    false
}


/// Unicode lowercase mapping of a character sequence, as computed by
/// `str::to_lowercase`.
pub uninterp spec fn lowercase(s: Seq<char>) -> Seq<char>;

/// Calls `str::to_lowercase`. The contract claims only that the result is the
/// lowercase mapping of the input's characters, a function of the input alone;
/// the Unicode case tables themselves are not written out here.
#[verifier::external_body]
pub fn to_lowercase(s: &str) -> (res: String)
    ensures
        res@ == lowercase(s@),
{
    s.to_lowercase()
}

/// Calls `String::push`: appends one character.
#[verifier::external_body]
pub fn push_char(s: &mut String, c: char)
    ensures
        final(s)@ == old(s)@.push(c),
{
    s.push(c)
}

/// A `String` holding exactly the characters of `v`.
pub fn string_of(v: &Vec<char>) -> (res: String)
    ensures
        res@ == v@,
{
    let mut res = String::new();
    let mut i: usize = 0;
    while i < v.len()
        invariant
            i <= v.len(),
            res@ == v@.take(i as int),
        decreases v.len() - i,
    {
        push_char(&mut res, v[i]);
        i = i + 1;
        assert(res@ =~= v@.take(i as int));
    }
    assert(v@.take(v.len() as int) =~= v@);
    res
}

/// The lowercase characters of `s`.
pub fn lower_chars(s: &str) -> (res: Vec<char>)
    ensures
        res@ == lowercase(s@),
{
    let l = to_lowercase(s);
    chars_of(l.as_str())
}

/// Number of bytes in the UTF-8 encoding of the character `c`.
pub open spec fn utf8_width(c: char) -> nat {
    if (c as u32) < 0x80 {
        1
    } else if (c as u32) < 0x800 {
        2
    } else if (c as u32) < 0x10000 {
        3
    } else {
        4
    }
}

/// Number of bytes in the UTF-8 encoding of `s` (what `str::len` reports).
pub open spec fn utf8_len(s: Seq<char>) -> nat
    decreases s.len(),
{
    if s.len() == 0 {
        0
    } else {
        utf8_len(s.drop_last()) + utf8_width(s.last())
    }
}

/// Width of the UTF-8 encoding of one character.
pub fn utf8_width_of(c: char) -> (n: usize)
    ensures
        n == utf8_width(c),
{
    let u = c as u32;
    if u < 0x80 {
        1
    } else if u < 0x800 {
        2
    } else if u < 0x10000 {
        3
    } else {
        4
    }
}

proof fn lemma_utf8_len_monotone(s: Seq<char>, k: int)
    requires
        0 <= k <= s.len(),
    ensures
        utf8_len(s.take(k)) <= utf8_len(s),
    decreases s.len(),
{
    if k < s.len() {
        assert(s.drop_last().take(k) =~= s.take(k));
        lemma_utf8_len_monotone(s.drop_last(), k);
    } else {
        assert(s.take(k) =~= s);
    }
}

/// Whether the UTF-8 encoding of `v` is longer than `n` bytes.
pub fn utf8_len_exceeds(v: &Vec<char>, n: usize) -> (r: bool)
    ensures
        r == (utf8_len(v@) > n),
{
    let mut total: usize = 0;
    let mut i: usize = 0;
    while i < v.len()
        invariant
            i <= v.len(),
            total == utf8_len(v@.take(i as int)),
            total <= n,
        decreases v.len() - i,
    {
        let w = utf8_width_of(v[i]);
        assert(v@.take(i + 1).drop_last() =~= v@.take(i as int));
        if w > n - total {
            proof { lemma_utf8_len_monotone(v@, i + 1); }
            return true;
        }
        total = total + w;
        i = i + 1;
    }
    assert(v@.take(i as int) =~= v@);
    false
}

/// The decimal digit character for `d < 10`.
pub open spec fn digit_char(d: nat) -> char {
    ((48 + d) as u8) as char
}

/// Decimal rendering of a natural number, without sign or leading zeros.
pub open spec fn decimal(n: nat) -> Seq<char>
    decreases n,
{
    if n < 10 {
        seq![digit_char(n)]
    } else {
        decimal(n / 10).push(digit_char(n % 10))
    }
}

/// The decimal digits of `n`.
pub fn decimal_chars(n: u64) -> (res: Vec<char>)
    ensures
        res@ == decimal(n as nat),
    decreases n,
{
    let d: u8 = (n % 10) as u8;
    let c: char = (48u8 + d) as char;
    if n < 10 {
        let mut v: Vec<char> = Vec::new();
        v.push(c);
        assert(v@ =~= seq![digit_char(n as nat)]);
        v
    } else {
        let mut v = decimal_chars(n / 10);
        v.push(c);
        v
    }
}

/// The decimal rendering of `n` as a `String`.
pub fn decimal_string(n: u64) -> (res: String)
    ensures
        res@ == decimal(n as nat),
{
    string_of(&decimal_chars(n))
}

/// `c` is an ASCII decimal digit.
pub open spec fn is_digit(c: char) -> bool {
    48 <= c as u32 <= 57
}

/// Value of a sequence of decimal digits, most significant first.
pub open spec fn digits_value(s: Seq<char>) -> nat
    decreases s.len(),
{
    if s.len() == 0 {
        0
    } else {
        digits_value(s.drop_last()) * 10 + ((s.last() as u32) - 48) as nat
    }
}

/// The digits part of an unsigned number: an optional leading `+` is dropped.
pub open spec fn unsigned_digits(s: Seq<char>) -> Seq<char> {
    if s.len() > 0 && s[0] == '+' {
        s.drop_first()
    } else {
        s
    }
}

/// Parsing of an unsigned decimal integer no greater than `max`, as `FromStr`
/// does it for Rust's unsigned integer types: an optional `+`, then one or more
/// ASCII digits, and nothing else.
pub open spec fn parse_unsigned(s: Seq<char>, max: nat) -> Option<nat> {
    let d = unsigned_digits(s);
    if d.len() > 0 && (forall|i: int| 0 <= i < d.len() ==> is_digit(#[trigger] d[i]))
        && digits_value(d) <= max {
        Some(digits_value(d))
    } else {
        None
    }
}

proof fn lemma_digits_value_prefix(s: Seq<char>, k: int)
    requires
        0 <= k <= s.len(),
        forall|i: int| 0 <= i < s.len() ==> is_digit(#[trigger] s[i]),
    ensures
        digits_value(s.take(k)) <= digits_value(s),
    decreases s.len(),
{
    if k < s.len() {
        assert(s.drop_last().take(k) =~= s.take(k));
        lemma_digits_value_prefix(s.drop_last(), k);
    } else {
        assert(s.take(k) =~= s);
    }
}

/// Parses an unsigned decimal integer no greater than `max`.
pub fn parse_unsigned_chars(s: &Vec<char>, max: u64) -> (r: Option<u64>)
    ensures
        r matches Some(v) ==> parse_unsigned(s@, max as nat) == Some(v as nat),
        r is None ==> parse_unsigned(s@, max as nat) is None,
{
    let ghost d = unsigned_digits(s@);
    let start: usize = if s.len() > 0 && s[0] == '+' { 1 } else { 0 };
    assert(d =~= s@.skip(start as int));
    if start >= s.len() {
        return None;
    }
    let mut acc: u64 = 0;
    let mut i: usize = start;
    while i < s.len()
        invariant
            start <= i <= s.len(),
            d == unsigned_digits(s@),
            d =~= s@.skip(start as int),
            forall|j: int| 0 <= j < i - start ==> is_digit(#[trigger] d[j]),
            acc as nat == digits_value(d.take(i - start)),
            acc <= max,
        decreases s.len() - i,
    {
        let c = s[i];
        let cu = c as u32;
        assert(d[i - start] == c);
        if !(48 <= cu && cu <= 57) {
            assert(!is_digit(d[i - start]));
            assert(!(forall|j: int| 0 <= j < d.len() ==> is_digit(#[trigger] d[j])));
            assert(d == unsigned_digits(s@));
            return None;
        }
        let dv: u64 = (cu - 48) as u64;
        assert(d.take(i - start + 1).drop_last() =~= d.take(i - start));
        if dv > max || acc > (max - dv) / 10 {
            assert(acc * 10 + dv > max) by (nonlinear_arith)
                requires dv > max || acc > (max - dv) / 10, acc >= 0;
            assert forall|j: int| 0 <= j < i - start + 1 implies is_digit(#[trigger] d.take(i - start + 1)[j]) by {}
            proof {
                if forall|j: int| 0 <= j < d.len() ==> is_digit(#[trigger] d[j]) {
                    lemma_digits_value_prefix(d, i - start + 1);
                    assert(digits_value(d) > max);
                }
            }
            assert(d == unsigned_digits(s@));
            return None;
        }
        assert(acc * 10 + dv <= max) by (nonlinear_arith)
            requires acc <= (max - dv) / 10, dv <= max;
        acc = acc * 10 + dv;
        i = i + 1;
    }
    assert(d.take(i - start) =~= d);
    Some(acc)
}


/// `c` has the Unicode `White_Space` property (what `char::is_whitespace` tests).
pub open spec fn is_ws(c: char) -> bool {
    let u = c as u32;
    ||| 0x09 <= u <= 0x0D
    ||| u == 0x20
    ||| u == 0x85
    ||| u == 0xA0
    ||| u == 0x1680
    ||| 0x2000 <= u <= 0x200A
    ||| u == 0x2028
    ||| u == 0x2029
    ||| u == 0x202F
    ||| u == 0x205F
    ||| u == 0x3000
}

/// Whether `c` is a Unicode white-space character.
pub fn is_whitespace(c: char) -> (r: bool)
    ensures
        r == is_ws(c),
{
    let u = c as u32;
    (0x09 <= u && u <= 0x0D) || u == 0x20 || u == 0x85 || u == 0xA0 || u == 0x1680 || (0x2000 <= u
        && u <= 0x200A) || u == 0x2028 || u == 0x2029 || u == 0x202F || u == 0x205F || u == 0x3000
}

/// What separates the pieces of a split.
pub enum Separator {
    /// One given character.
    Char(char),
    /// Any white-space character.
    Whitespace,
}

/// Whether `c` separates pieces under `sep`.
pub open spec fn separates(sep: Separator, c: char) -> bool {
    match sep {
        Separator::Char(d) => c == d,
        Separator::Whitespace => is_ws(c),
    }
}

/// The pieces of `s` between separators, empty pieces included: a string with
/// `n` separators has `n + 1` pieces (what `str::split` yields).
pub open spec fn split_by(s: Seq<char>, sep: Separator) -> Seq<Seq<char>>
    decreases s.len(),
{
    if s.len() == 0 {
        seq![Seq::<char>::empty()]
    } else {
        let prev = split_by(s.drop_last(), sep);
        if separates(sep, s.last()) {
            prev.push(Seq::<char>::empty())
        } else {
            prev.drop_last().push(prev.last().push(s.last()))
        }
    }
}

/// The white-space separated words of `s` (what `str::split_whitespace` yields).
pub open spec fn words(s: Seq<char>) -> Seq<Seq<char>> {
    split_by(s, Separator::Whitespace).filter(|p: Seq<char>| p.len() > 0)
}

/// The views of a sequence of character vectors.
pub open spec fn vec_views(v: Seq<Vec<char>>) -> Seq<Seq<char>> {
    v.map_values(|p: Vec<char>| p@)
}

proof fn lemma_split_nonempty(s: Seq<char>, sep: Separator)
    ensures
        split_by(s, sep).len() >= 1,
    decreases s.len(),
{
    if s.len() > 0 {
        lemma_split_nonempty(s.drop_last(), sep);
    }
}

fn separates_exec(sep: &Separator, c: char) -> (r: bool)
    ensures
        r == separates(*sep, c),
{
    match sep {
        Separator::Char(d) => c == *d,
        Separator::Whitespace => is_whitespace(c),
    }
}

/// Splits `s` into the pieces between separators, empty pieces included.
pub fn split_pieces(s: &Vec<char>, sep: &Separator) -> (res: Vec<Vec<char>>)
    ensures
        vec_views(res@) == split_by(s@, *sep),
{
    let mut done: Vec<Vec<char>> = Vec::new();
    let mut cur: Vec<char> = Vec::new();
    let mut i: usize = 0;
    while i < s.len()
        invariant
            i <= s.len(),
            split_by(s@.take(i as int), *sep) == vec_views(done@).push(cur@),
        decreases s.len() - i,
    {
        let c = s[i];
        assert(s@.take(i + 1).drop_last() =~= s@.take(i as int));
        let ghost prev = split_by(s@.take(i as int), *sep);
        if separates_exec(sep, c) {
            done.push(cur);
            cur = Vec::new();
            assert(vec_views(done@).push(cur@) =~= prev.push(Seq::<char>::empty()));
        } else {
            cur.push(c);
            assert(vec_views(done@).push(cur@) =~= prev.drop_last().push(prev.last().push(c)));
        }
        i = i + 1;
    }
    done.push(cur);
    assert(s@.take(i as int) =~= s@);
    assert(vec_views(done@) =~= split_by(s@, *sep));
    done
}

/// The white-space separated words of `s`.
pub fn split_words(s: &Vec<char>) -> (res: Vec<Vec<char>>)
    ensures
        vec_views(res@) == words(s@),
{
    let pieces = split_pieces(s, &Separator::Whitespace);
    let ghost ps = vec_views(pieces@);
    let ghost pred = |p: Seq<char>| p.len() > 0;
    let mut res: Vec<Vec<char>> = Vec::new();
    let mut i: usize = 0;
    while i < pieces.len()
        invariant
            i <= pieces.len(),
            ps == vec_views(pieces@),
            pred == (|p: Seq<char>| p.len() > 0),
            vec_views(res@) == ps.take(i as int).filter(pred),
        decreases pieces.len() - i,
    {
        proof {
            ps.take(i as int).lemma_filter_push(ps[i as int], pred);
            assert(ps.take(i + 1) =~= ps.take(i as int).push(ps[i as int]));
        }
        if pieces[i].len() > 0 {
            res.push(pieces[i].clone());
            assert(vec_views(res@) =~= ps.take(i as int).filter(pred).push(ps[i as int]));
        }
        i = i + 1;
    }
    assert(ps.take(i as int) =~= ps);
    res
}

/// `s` cut to `max` bytes of UTF-8 can be taken without splitting a character,
/// or needs no cut.
pub open spec fn truncatable(s: Seq<char>, max: nat) -> bool {
    utf8_len(s) <= max || exists|k: int| 0 <= k <= s.len() && utf8_len(#[trigger] s.take(k)) == max
}

/// `s` itself when its UTF-8 encoding has at most `max` bytes; otherwise its
/// first `max` bytes followed by `...`.
pub open spec fn truncated(s: Seq<char>, max: nat) -> Seq<char> {
    if utf8_len(s) <= max {
        s
    } else {
        let k = choose|k: int| 0 <= k <= s.len() && utf8_len(#[trigger] s.take(k)) == max;
        s.take(k) + "..."@
    }
}

proof fn lemma_utf8_len_strict(s: Seq<char>, j: int, k: int)
    requires
        0 <= j < k <= s.len(),
    ensures
        utf8_len(s.take(j)) < utf8_len(s.take(k)),
    decreases k,
{
    assert(s.take(k).drop_last() =~= s.take(k - 1));
    if j < k - 1 {
        lemma_utf8_len_strict(s, j, k - 1);
    }
}

/// Whether `s` can be cut to `max` bytes of UTF-8 without splitting a
/// character (or needs no cut).
pub fn is_truncatable(s: &str, max: usize) -> (r: bool)
    ensures
        r == truncatable(s@, max as nat),
{
    let v = chars_of(s);
    if !utf8_len_exceeds(&v, max) {
        return true;
    }
    let mut total: usize = 0;
    let mut i: usize = 0;
    while i < v.len()
        invariant
            i <= v.len(),
            v@ == s@,
            total == utf8_len(v@.take(i as int)),
            total <= max,
            utf8_len(v@) > max,
        decreases v.len() - i,
    {
        let w = utf8_width_of(v[i]);
        assert(v@.take(i + 1).drop_last() =~= v@.take(i as int));
        if w > max - total {
            assert(v@.take(i + 1).last() == v@[i as int]);
            assert(utf8_len(v@.take(i + 1)) == total + w);
            if total == max {
                assert(utf8_len(s@.take(i as int)) == max);
                return true;
            }
            proof {
                assert forall|k: int| 0 <= k <= s@.len() implies utf8_len(#[trigger] s@.take(k)) != max by {
                    if k < i {
                        lemma_utf8_len_strict(v@, k, i as int);
                    } else if k > i + 1 {
                        lemma_utf8_len_strict(v@, i + 1, k);
                    }
                }
            }
            return false;
        }
        total = total + w;
        i = i + 1;
    }
    assert(v@.take(i as int) =~= v@);
    assert(false);
    false
}

/// Cuts `s` to `max` bytes of UTF-8 and marks the cut with `...`; a string that
/// already fits is returned whole. The cut must fall between characters.
pub fn truncate_str(s: &str, max: usize) -> (res: String)
    requires
        truncatable(s@, max as nat),
    ensures
        res@ == truncated(s@, max as nat),
{
    let v = chars_of(s);
    if !utf8_len_exceeds(&v, max) {
        return String::from_str(s);
    }
    let mut total: usize = 0;
    let mut i: usize = 0;
    while total < max
        invariant
            i <= v.len(),
            total == utf8_len(v@.take(i as int)),
            total <= max,
            utf8_len(v@) > max,
            truncatable(v@, max as nat),
        decreases max - total,
    {
        if i == v.len() {
            assert(v@.take(i as int) =~= v@);
            assert(false);
        }
        let w = utf8_width_of(v[i]);
        assert(v@.take(i + 1).drop_last() =~= v@.take(i as int));
        if w > max - total {
            proof {
                let k = choose|k: int| 0 <= k <= v@.len() && utf8_len(#[trigger] v@.take(k)) == max;
                if k <= i {
                    if k < i {
                        lemma_utf8_len_strict(v@, k, i as int);
                    }
                } else {
                    if k > i + 1 {
                        lemma_utf8_len_strict(v@, i + 1, k);
                    }
                }
            }
            assert(false);
        }
        total = total + w;
        i = i + 1;
    }
    proof {
        let k = choose|k: int| 0 <= k <= v@.len() && utf8_len(#[trigger] v@.take(k)) == max;
        if k < i {
            lemma_utf8_len_strict(v@, k, i as int);
        } else if k > i {
            lemma_utf8_len_strict(v@, i as int, k);
        }
        assert(k == i);
    }
    let mut prefix: Vec<char> = Vec::new();
    let mut j: usize = 0;
    while j < i
        invariant
            j <= i <= v.len(),
            prefix@ == v@.take(j as int),
        decreases i - j,
    {
        prefix.push(v[j]);
        j = j + 1;
        assert(prefix@ =~= v@.take(j as int));
    }
    let mut res = string_of(&prefix);
    res.append("...");
    res
}


/// Every character of `decimal(n)` is a digit and the digits read back as `n`.
pub proof fn lemma_decimal_digits(n: nat)
    ensures
        decimal(n).len() >= 1,
        forall|i: int| 0 <= i < decimal(n).len() ==> is_digit(#[trigger] decimal(n)[i]),
        digits_value(decimal(n)) == n,
    decreases n,
{
    if n >= 10 {
        lemma_decimal_digits(n / 10);
        let d = decimal(n);
        assert(d.drop_last() =~= decimal(n / 10));
        assert(d.last() == digit_char(n % 10));
        assert(digit_char(n % 10) as u32 == 48 + n % 10);
        assert((n / 10) * 10 + n % 10 == n);
        assert(digits_value(d) == digits_value(d.drop_last()) * 10 + ((d.last() as u32) - 48) as nat);
        assert forall|i: int| 0 <= i < d.len() implies is_digit(#[trigger] d[i]) by {
            if i < d.len() - 1 {
                assert(d[i] == decimal(n / 10)[i]);
            }
        }
    } else {
        let d = decimal(n);
        assert(d.drop_last() =~= Seq::<char>::empty());
        assert(digit_char(n) as u32 == 48 + n);
        assert(digits_value(d) == digits_value(d.drop_last()) * 10 + ((d.last() as u32) - 48) as nat);
    }
}

/// The decimal text of `n <= max` parses back to `n`.
pub proof fn lemma_parse_decimal(n: nat, max: nat)
    requires
        n <= max,
    ensures
        parse_unsigned(decimal(n), max) == Some(n),
{
    lemma_decimal_digits(n);
    let d = decimal(n);
    assert(is_digit(d[0]));
    assert(unsigned_digits(d) == d);
}

/// No character of `u` is a separator.
pub open spec fn free_of(u: Seq<char>, sep: Separator) -> bool {
    forall|i: int| 0 <= i < u.len() ==> !separates(sep, #[trigger] u[i])
}

/// Appending separator-free text extends the last piece.
pub proof fn lemma_split_append_free(t: Seq<char>, u: Seq<char>, sep: Separator)
    requires
        free_of(u, sep),
    ensures
        split_by(t + u, sep) == split_by(t, sep).drop_last().push(split_by(t, sep).last() + u),
    decreases u.len(),
{
    lemma_split_nonempty(t, sep);
    if u.len() == 0 {
        assert(t + u =~= t);
        let p = split_by(t, sep);
        assert(p.drop_last().push(p.last() + u) =~= p);
    } else {
        let u0 = u.drop_last();
        assert(free_of(u0, sep));
        lemma_split_append_free(t, u0, sep);
        assert((t + u).drop_last() =~= t + u0);
        assert((t + u).last() == u.last());
        assert(!separates(sep, u[u.len() - 1]));
        let p = split_by(t, sep);
        assert((p.last() + u0).push(u.last()) =~= p.last() + u);
        assert(p.drop_last().push(p.last() + u0).drop_last() =~= p.drop_last());
    }
}

/// Separator-free text is a single piece.
pub proof fn lemma_split_free(u: Seq<char>, sep: Separator)
    requires
        free_of(u, sep),
    ensures
        split_by(u, sep) == seq![u],
{
    lemma_split_append_free(Seq::<char>::empty(), u, sep);
    assert(Seq::<char>::empty() + u =~= u);
    assert(seq![Seq::<char>::empty()].drop_last().push(Seq::<char>::empty() + u) =~= seq![u]);
}

/// Decimal text holds no dot.
pub proof fn lemma_decimal_free_of_dot(n: nat)
    ensures
        free_of(decimal(n), Separator::Char('.')),
{
    lemma_decimal_digits(n);
    assert forall|i: int| 0 <= i < decimal(n).len() implies !separates(
        Separator::Char('.'),
        #[trigger] decimal(n)[i],
    ) by {
        assert(is_digit(decimal(n)[i]));
    }
}


/// `s` without leading white space.
pub open spec fn trim_start(s: Seq<char>) -> Seq<char>
    decreases s.len(),
{
    if s.len() > 0 && is_ws(s[0]) {
        trim_start(s.drop_first())
    } else {
        s
    }
}

/// `s` without trailing white space.
pub open spec fn trim_end(s: Seq<char>) -> Seq<char>
    decreases s.len(),
{
    if s.len() > 0 && is_ws(s.last()) {
        trim_end(s.drop_last())
    } else {
        s
    }
}

/// `s` without leading and trailing white space (what `str::trim` yields).
pub open spec fn trim(s: Seq<char>) -> Seq<char> {
    trim_end(trim_start(s))
}

/// The characters of `v` from `from` up to, not including, `to`.
pub fn slice_chars(v: &Vec<char>, from: usize, to: usize) -> (res: Vec<char>)
    requires
        from <= to <= v.len(),
    ensures
        res@ == v@.subrange(from as int, to as int),
{
    let mut res: Vec<char> = Vec::new();
    let mut i: usize = from;
    while i < to
        invariant
            from <= i <= to <= v.len(),
            res@ == v@.subrange(from as int, i as int),
        decreases to - i,
    {
        res.push(v[i]);
        i = i + 1;
        assert(res@ =~= v@.subrange(from as int, i as int));
    }
    res
}

proof fn lemma_trim_start_skip(s: Seq<char>, k: int)
    requires
        0 <= k <= s.len(),
        forall|j: int| 0 <= j < k ==> is_ws(#[trigger] s[j]),
    ensures
        trim_start(s) == trim_start(s.skip(k)),
    decreases k,
{
    if k > 0 {
        assert(s.drop_first().skip(k - 1) =~= s.skip(k));
        lemma_trim_start_skip(s.drop_first(), k - 1);
    } else {
        assert(s.skip(0) =~= s);
    }
}

proof fn lemma_trim_end_take(s: Seq<char>, k: int)
    requires
        0 <= k <= s.len(),
        forall|j: int| k <= j < s.len() ==> is_ws(#[trigger] s[j]),
    ensures
        trim_end(s) == trim_end(s.take(k)),
    decreases s.len() - k,
{
    if k < s.len() {
        assert(s.drop_last().take(k) =~= s.take(k));
        lemma_trim_end_take(s.drop_last(), k);
    } else {
        assert(s.take(k) =~= s);
    }
}

/// `v` without leading and trailing white space.
pub fn trim_chars(v: &Vec<char>) -> (res: Vec<char>)
    ensures
        res@ == trim(v@),
{
    let mut start: usize = 0;
    while start < v.len() && is_whitespace(v[start])
        invariant
            start <= v.len(),
            forall|j: int| 0 <= j < start ==> is_ws(#[trigger] v@[j]),
        decreases v.len() - start,
    {
        start = start + 1;
    }
    proof { lemma_trim_start_skip(v@, start as int); }
    let ghost t = v@.skip(start as int);
    assert(start == v.len() || !is_ws(t[0]));
    assert(trim_start(t) == t);
    let mut end: usize = v.len();
    while end > start && is_whitespace(v[end - 1])
        invariant
            start <= end <= v.len(),
            forall|j: int| end <= j < v.len() ==> is_ws(#[trigger] v@[j]),
        decreases end - start,
    {
        end = end - 1;
    }
    let res = slice_chars(v, start, end);
    proof {
        assert(t.take(end - start) =~= res@);
        lemma_trim_end_take(t, end - start);
        assert(res@.len() == 0 || !is_ws(res@.last()));
    }
    res
}

/// Whether the characters of `v` are exactly those of `s`.
pub fn chars_eq(v: &Vec<char>, s: &str) -> (r: bool)
    ensures
        r == (v@ == s@),
{
    let sc = chars_of(s);
    if v.len() != sc.len() {
        return false;
    }
    let mut i: usize = 0;
    while i < v.len()
        invariant
            i <= v.len() == sc.len(),
            sc@ == s@,
            forall|j: int| 0 <= j < i ==> v@[j] == sc@[j],
        decreases v.len() - i,
    {
        if v[i] != sc[i] {
            return false;
        }
        i = i + 1;
    }
    assert(v@ =~= sc@);
    true
}


/// The first position at which `p` occurs in `s`, if any.
pub open spec fn first_occurrence(s: Seq<char>, p: Seq<char>) -> Option<int> {
    if contains_sub(s, p) {
        Some(
            choose|i: int|
                occurs_at(s, p, i) && forall|j: int| 0 <= j < i ==> !#[trigger] occurs_at(s, p, j),
        )
    } else {
        None
    }
}

proof fn lemma_least_occurrence(s: Seq<char>, p: Seq<char>, i: int)
    requires
        occurs_at(s, p, i),
    ensures
        exists|k: int| occurs_at(s, p, k) && forall|j: int| 0 <= j < k ==> !#[trigger] occurs_at(s, p, j),
    decreases i,
{
    if exists|j: int| 0 <= j < i && occurs_at(s, p, j) {
        let j = choose|j: int| 0 <= j < i && occurs_at(s, p, j);
        lemma_least_occurrence(s, p, j);
    } else {
        assert(forall|j: int| 0 <= j < i ==> !#[trigger] occurs_at(s, p, j));
    }
}

/// The first position at which the string slice `p` occurs in `s`.
pub fn find_str(s: &Vec<char>, p: &str) -> (r: Option<usize>)
    ensures
        r matches Some(i) ==> first_occurrence(s@, p@) == Some(i as int) && occurs_at(s@, p@, i as int),
        r is None ==> first_occurrence(s@, p@) is None,
{
    let pc = chars_of(p);
    let r = find_sub(s, &pc);
    proof {
        if let Some(i) = r {
            lemma_least_occurrence(s@, p@, i as int);
            let k = choose|k: int|
                occurs_at(s@, p@, k) && forall|j: int| 0 <= j < k ==> !#[trigger] occurs_at(s@, p@, j);
            if k < i {
                assert(!occurs_at(s@, p@, k));
            }
            if k > i {
                assert(!occurs_at(s@, p@, i as int));
            }
        }
    }
    r
}

} // verus!

verus! {

/// `i` is the first position of `key` in `keys`.
pub open spec fn is_first_key(keys: Seq<Seq<char>>, key: Seq<char>, i: int) -> bool {
    &&& 0 <= i < keys.len()
    &&& keys[i] == key
    &&& forall|j: int| 0 <= j < i ==> keys[j] != key
}

/// The first position of `key` in `keys`, if it occurs.
pub open spec fn key_lookup(keys: Seq<Seq<char>>, key: Seq<char>) -> Option<int> {
    if exists|i: int| 0 <= i < keys.len() && keys[i] == key {
        Some(choose|i: int| is_first_key(keys, key, i))
    } else {
        None
    }
}

/// The keys of a list of string pairs.
pub open spec fn pair_keys(pairs: Seq<(String, String)>) -> Seq<Seq<char>> {
    pairs.map_values(|p: (String, String)| p.0@)
}

/// The value paired with the first occurrence of `key`, if any.
pub open spec fn pair_lookup(pairs: Seq<(String, String)>, key: Seq<char>) -> Option<Seq<char>> {
    match key_lookup(pair_keys(pairs), key) {
        Some(i) => Some(pairs[i].1@),
        None => None,
    }
}

proof fn lemma_first_key_unique(keys: Seq<Seq<char>>, key: Seq<char>, i: int, k: int)
    requires
        is_first_key(keys, key, i),
        is_first_key(keys, key, k),
    ensures
        i == k,
{
    if i < k {
        assert(keys[i] != key);
    } else if k < i {
        assert(keys[k] != key);
    }
}

/// The position of the first pair whose key is `key`.
pub fn find_pair(pairs: &Vec<(String, String)>, key: &str) -> (r: Option<usize>)
    ensures
        r matches Some(i) ==> key_lookup(pair_keys(pairs@), key@) == Some(i as int),
        r is None ==> key_lookup(pair_keys(pairs@), key@) is None,
        r is None <==> pair_lookup(pairs@, key@) is None,
        r matches Some(i) ==> i < pairs@.len() && pair_lookup(pairs@, key@) == Some(pairs@[i as int].1@),
{
    let ghost keys = pair_keys(pairs@);
    let kc = chars_of(key);
    let mut i: usize = 0;
    while i < pairs.len()
        invariant
            i <= pairs@.len(),
            keys == pair_keys(pairs@),
            kc@ == key@,
            forall|j: int| 0 <= j < i ==> keys[j] != key@,
        decreases pairs@.len() - i,
    {
        let pk = chars_of(pairs[i].0.as_str());
        if chars_eq(&pk, key) {
            proof {
                assert(is_first_key(keys, key@, i as int));
                let c = choose|c: int| is_first_key(keys, key@, c);
                lemma_first_key_unique(keys, key@, i as int, c);
            }
            return Some(i);
        }
        i = i + 1;
    }
    None
}

} // verus!

verus! {

/// `a` and `b` joined.
pub fn join2(a: &str, b: &str) -> (r: String)
    ensures
        r@ == a@ + b@,
{
    let mut r = String::from_str(a);
    r.append(b);
    r
}

/// `a`, `b` and `c` joined.
pub fn join3(a: &str, b: &str, c: &str) -> (r: String)
    ensures
        r@ == a@ + b@ + c@,
{
    let mut r = String::from_str(a);
    r.append(b);
    r.append(c);
    r
}

/// Some string of `v` has exactly the characters of `s`.
pub fn any_equals(v: &Vec<String>, s: &str) -> (r: bool)
    ensures
        r == string_views(v@).contains(s@),
{
    let mut i: usize = 0;
    while i < v.len()
        invariant
            i <= v@.len(),
            forall|j: int| 0 <= j < i ==> string_views(v@)[j] != s@,
        decreases v@.len() - i,
    {
        let c = chars_of(v[i].as_str());
        if chars_eq(&c, s) {
            assert(string_views(v@)[i as int] == s@);
            return true;
        }
        i = i + 1;
    }
    false
}

} // verus!

verus! {

/// The words of `s` longer than three bytes.
pub open spec fn long_words(s: Seq<char>) -> Seq<Seq<char>> {
    words(s).filter(|w: Seq<char>| utf8_len(w) > 3)
}

/// The keywords of a phrase: the words of its lowercase form longer than
/// three bytes.
pub open spec fn keywords(s: Seq<char>) -> Seq<Seq<char>> {
    long_words(lowercase(s))
}

/// The keywords of a phrase.
pub fn keywords_of(s: &str) -> (r: Vec<Vec<char>>)
    ensures
        vec_views(r@) == keywords(s@),
{
    let lower = lower_chars(s);
    let ws = split_words(&lower);
    let ghost all = vec_views(ws@);
    let ghost pred = |w: Seq<char>| utf8_len(w) > 3;
    let mut r: Vec<Vec<char>> = Vec::new();
    let mut i: usize = 0;
    while i < ws.len()
        invariant
            i <= ws@.len(),
            all == vec_views(ws@),
            pred == (|w: Seq<char>| utf8_len(w) > 3),
            vec_views(r@) == all.take(i as int).filter(pred),
        decreases ws@.len() - i,
    {
        proof {
            all.take(i as int).lemma_filter_push(all[i as int], pred);
            assert(all.take(i + 1) =~= all.take(i as int).push(all[i as int]));
        }
        if utf8_len_exceeds(&ws[i], 3) {
            let ghost before = r@;
            r.push(ws[i].clone());
            assert(vec_views(r@) =~= vec_views(before).push(all[i as int]));
        }
        i = i + 1;
    }
    assert(all.take(i as int) =~= all);
    r
}

/// Whether some sequence of `ps` is a substring of `s`.
pub fn contains_any_seq(s: &Vec<char>, ps: &Vec<Vec<char>>) -> (r: bool)
    ensures
        r == contains_any(s@, vec_views(ps@)),
{
    let mut k: usize = 0;
    while k < ps.len()
        invariant
            k <= ps@.len(),
            forall|j: int| 0 <= j < k ==> !contains_sub(s@, #[trigger] vec_views(ps@)[j]),
        decreases ps@.len() - k,
    {
        if seq_contains(s, &ps[k]) {
            assert(contains_sub(s@, vec_views(ps@)[k as int]));
            return true;
        }
        k = k + 1;
    }
    false
}

} // verus!

verus! {

/// Whether two character vectors hold the same characters.
pub fn chars_equal(a: &Vec<char>, b: &Vec<char>) -> (r: bool)
    ensures
        r == (a@ == b@),
{
    if a.len() != b.len() {
        return false;
    }
    let mut i: usize = 0;
    while i < a.len()
        invariant
            i <= a.len() == b.len(),
            forall|j: int| 0 <= j < i ==> a@[j] == b@[j],
        decreases a.len() - i,
    {
        if a[i] != b[i] {
            return false;
        }
        i = i + 1;
    }
    assert(a@ =~= b@);
    true
}

} // verus!

verus! {

/// The first `max` bytes of `s` (all of it when it is shorter); the cut must
/// fall between characters.
pub open spec fn byte_prefix(s: Seq<char>, max: nat) -> Seq<char> {
    if utf8_len(s) <= max {
        s
    } else {
        let k = choose|k: int| 0 <= k <= s.len() && utf8_len(#[trigger] s.take(k)) == max;
        s.take(k)
    }
}

/// The first `max` bytes of `s`.
pub fn prefix_str(s: &str, max: usize) -> (res: String)
    requires
        truncatable(s@, max as nat),
    ensures
        res@ == byte_prefix(s@, max as nat),
{
    let v = chars_of(s);
    if !utf8_len_exceeds(&v, max) {
        return String::from_str(s);
    }
    let t = truncate_str(s, max);
    let tc = chars_of(t.as_str());
    proof {
        reveal_strlit("...");
        let k = choose|k: int| 0 <= k <= s@.len() && utf8_len(#[trigger] s@.take(k)) == max;
        assert(tc@ == s@.take(k) + "..."@);
        assert(tc@.len() >= 3);
    }
    let kept = slice_chars(&tc, 0, tc.len() - 3);
    proof {
        let k = choose|k: int| 0 <= k <= s@.len() && utf8_len(#[trigger] s@.take(k)) == max;
        assert(kept@ =~= s@.take(k));
    }
    string_of(&kept)
}

} // verus!
