//! Verified helpers over strings viewed as sequences of characters.
//!
//! Everything here is ordinary character-level logic: substring search,
//! splitting, trimming, and decimal rendering/parsing. These are the
//! primitives the secret store, the reference parser and the hook
//! inspection are specified and proved with.

use vstd::prelude::*;
use vstd::string::*;

verus! {

/// Position of the first occurrence of the nonempty pattern `pat` in `s`
/// at or after `i`.
pub open spec fn find_from(s: Seq<char>, pat: Seq<char>, i: int) -> Option<int>
    decreases s.len() - i,
{
    if i < 0 || pat.len() == 0 || i + pat.len() > s.len() {
        None
    } else if s.subrange(i, i + pat.len() as int) == pat {
        Some(i)
    } else {
        find_from(s, pat, i + 1)
    }
}

/// Whenever `find_from` reports a position, the pattern stands there, in
/// range, and nowhere earlier.
pub proof fn lemma_find_from(s: Seq<char>, pat: Seq<char>, i: int)
    requires
        0 <= i,
        pat.len() > 0,
    ensures
        match find_from(s, pat, i) {
            Some(j) => i <= j && j + pat.len() <= s.len() && s.subrange(j, j + pat.len() as int)
                == pat,
            None => true,
        },
    decreases s.len() - i,
{
    if i + pat.len() <= s.len() && s.subrange(i, i + pat.len() as int) != pat {
        lemma_find_from(s, pat, i + 1);
    }
}

/// Position of the first occurrence of the character `c` in `s` at or after `i`.
pub open spec fn find_char_from(s: Seq<char>, c: char, i: int) -> Option<int>
    decreases s.len() - i,
{
    if i < 0 || i >= s.len() {
        None
    } else if s[i] == c {
        Some(i)
    } else {
        find_char_from(s, c, i + 1)
    }
}

/// Whenever `find_char_from` reports a position, it lies in range and
/// really holds `c`, and no earlier position does.
pub proof fn lemma_find_char_from(s: Seq<char>, c: char, i: int)
    requires
        0 <= i,
    ensures
        match find_char_from(s, c, i) {
            Option::Some(j) => i <= j < s.len() && s[j] == c && (forall|k: int|
                i <= k < j ==> s[k] != c),
            Option::None => forall|k: int| i <= k < s.len() ==> s[k] != c,
        },
    decreases s.len() - i,
{
    if i < s.len() && s[i] != c {
        lemma_find_char_from(s, c, i + 1);
    }
}

/// What `s` splits into on separator `c`: the pieces between occurrences of
/// `c`, in order. An empty `s` yields one empty piece, as `str::split` does.
pub open spec fn split_spec(s: Seq<char>, c: char) -> Seq<Seq<char>>
    decreases s.len(),
    via split_spec_decreases
{
    match find_char_from(s, c, 0) {
        Option::None => seq![s],
        Option::Some(j) => seq![s.subrange(0, j)] + split_spec(
            s.subrange(j + 1, s.len() as int),
            c,
        ),
    }
}

#[via_fn]
proof fn split_spec_decreases(s: Seq<char>, c: char) {
    lemma_find_char_from(s, c, 0);
}

pub open spec fn is_space(c: char) -> bool {
    c == ' ' || c == '\t' || c == '\n' || c == '\r'
}

pub open spec fn trim_start_spec(s: Seq<char>) -> Seq<char>
    decreases s.len(),
{
    if s.len() > 0 && is_space(s[0]) {
        trim_start_spec(s.drop_first())
    } else {
        s
    }
}

pub open spec fn trim_end_spec(s: Seq<char>) -> Seq<char>
    decreases s.len(),
{
    if s.len() > 0 && is_space(s.last()) {
        trim_end_spec(s.drop_last())
    } else {
        s
    }
}

/// `s` with the spaces around it removed.
pub open spec fn trim_spec(s: Seq<char>) -> Seq<char> {
    trim_end_spec(trim_start_spec(s))
}

pub open spec fn digit_char(d: nat) -> char {
    if d == 0 {
        '0'
    } else if d == 1 {
        '1'
    } else if d == 2 {
        '2'
    } else if d == 3 {
        '3'
    } else if d == 4 {
        '4'
    } else if d == 5 {
        '5'
    } else if d == 6 {
        '6'
    } else if d == 7 {
        '7'
    } else if d == 8 {
        '8'
    } else {
        '9'
    }
}

/// Decimal rendering of `n`, most significant digit first, no leading zeros
/// except for `n == 0` itself.
pub open spec fn dec_digits(n: nat) -> Seq<char>
    decreases n,
{
    if n < 10 {
        seq![digit_char(n)]
    } else {
        dec_digits(n / 10) + seq![digit_char(n % 10)]
    }
}

pub open spec fn is_digit(c: char) -> bool {
    48 <= c as int && c as int <= 57
}

pub open spec fn digit_val(c: char) -> nat {
    (c as int - 48) as nat
}

pub open spec fn all_digits(s: Seq<char>) -> bool {
    forall|i: int| 0 <= i < s.len() ==> is_digit(#[trigger] s[i])
}

/// The number a digit string stands for.
pub open spec fn parse_digits(s: Seq<char>) -> nat
    decreases s.len(),
{
    if s.len() == 0 {
        0
    } else {
        parse_digits(s.drop_last()) * 10 + digit_val(s.last())
    }
}

/// Character-for-character equality of two string slices.
pub fn str_eq(a: &str, b: &str) -> (r: bool)
    ensures
        r == (a@ == b@),
{
    let alen = a.unicode_len();
    let blen = b.unicode_len();
    if alen != blen {
        return false;
    }
    let mut i: usize = 0;
    while i < alen
        invariant
            alen == a@.len(),
            alen == b@.len(),
            0 <= i <= alen,
            forall|j: int| 0 <= j < i ==> a@[j] == b@[j],
        decreases alen - i,
    {
        if a.get_char(i) != b.get_char(i) {
            return false;
        }
        i = i + 1;
    }
    proof {
        assert(a@ =~= b@);
    }
    true
}

/// Equality of an owned string and a slice.
pub fn string_eq_str(a: &String, b: &str) -> (r: bool)
    ensures
        r == (a@ == b@),
{
    str_eq(a.as_str(), b)
}

/// Does `s` start with `p`?
pub fn starts_with(s: &str, p: &str) -> (r: bool)
    ensures
        r == (p@.len() <= s@.len() && s@.subrange(0, p@.len() as int) == p@),
{
    let plen = p.unicode_len();
    let slen = s.unicode_len();
    if plen > slen {
        return false;
    }
    let mut i: usize = 0;
    while i < plen
        invariant
            plen == p@.len(),
            slen == s@.len(),
            plen <= slen,
            0 <= i <= plen,
            forall|j: int| 0 <= j < i ==> s@[j] == p@[j],
        decreases plen - i,
    {
        if s.get_char(i) != p.get_char(i) {
            proof {
                assert(s@.subrange(0, p@.len() as int)[i as int] == s@[i as int]);
            }
            return false;
        }
        i = i + 1;
    }
    proof {
        assert(s@.subrange(0, p@.len() as int) =~= p@);
    }
    true
}

/// First occurrence of the two-character pattern `c0 c1` in `s` at or
/// after `from`.
pub fn find_pat2(s: &str, c0: char, c1: char, from: usize) -> (r: Option<usize>)
    requires
        from <= s@.len(),
    ensures
        match r {
            Option::Some(j) => from <= j && j + 2 <= s@.len() && find_from(
                s@,
                seq![c0, c1],
                from as int,
            ) == Option::Some(j as int),
            Option::None => find_from(s@, seq![c0, c1], from as int) is None,
        },
{
    let len = s.unicode_len();
    let mut i: usize = from;
    loop
        invariant
            len == s@.len(),
            from <= i <= len,
            find_from(s@, seq![c0, c1], from as int) == find_from(s@, seq![c0, c1], i as int),
        decreases len - i,
    {
        if i >= len {
            return None;
        }
        if i + 1 >= len {
            return None;
        }
        let a = s.get_char(i);
        let b = s.get_char(i + 1);
        proof {
            assert(s@.subrange(i as int, i + 2) =~= seq![s@[i as int], s@[i + 1]]);
        }
        if a == c0 && b == c1 {
            return Some(i);
        }
        i = i + 1;
    }
}

/// First occurrence of the character `c` in `s` at or after `from`.
pub fn find_char(s: &str, c: char, from: usize) -> (r: Option<usize>)
    requires
        from <= s@.len(),
    ensures
        match r {
            Option::Some(j) => from <= j && j < s@.len() && find_char_from(s@, c, from as int)
                == Option::Some(j as int),
            Option::None => find_char_from(s@, c, from as int) is None,
        },
{
    let len = s.unicode_len();
    let mut i: usize = from;
    loop
        invariant
            len == s@.len(),
            from <= i <= len,
            find_char_from(s@, c, from as int) == find_char_from(s@, c, i as int),
        decreases len - i,
    {
        if i >= len {
            return None;
        }
        if s.get_char(i) == c {
            return Some(i);
        }
        i = i + 1;
    }
}

/// Finding from inside a suffix is finding from the corresponding
/// position of the whole, shifted.
pub proof fn lemma_find_char_shift(s: Seq<char>, c: char, start: int, i: int)
    requires
        0 <= start <= s.len(),
        0 <= i,
    ensures
        find_char_from(s, c, start + i) == match find_char_from(
            s.subrange(start, s.len() as int),
            c,
            i,
        ) {
            Option::None => Option::<int>::None,
            Option::Some(j) => Option::Some(j + start),
        },
    decreases s.len() - start - i,
{
    let sub = s.subrange(start, s.len() as int);
    if i < sub.len() {
        assert(sub[i] == s[start + i]);
        if s[start + i] != c {
            lemma_find_char_shift(s, c, start, i + 1);
        }
    }
}

/// What `s` splits into on `c`, as owned strings, matching `split_spec`.
pub fn split_on(s: &str, c: char) -> (r: Vec<String>)
    ensures
        r.deep_view() == split_spec(s@, c),
{
    let len = s.unicode_len();
    let mut r: Vec<String> = Vec::new();
    let mut start: usize = 0;
    proof {
        assert(s@.subrange(0, len as int) =~= s@);
        assert(r.deep_view() =~= Seq::<Seq<char>>::empty());
    }
    loop
        invariant
            len == s@.len(),
            0 <= start <= len,
            split_spec(s@, c) =~~= r.deep_view() + split_spec(
                s@.subrange(start as int, len as int),
                c,
            ),
        decreases len - start,
    {
        let ghost sub = s@.subrange(start as int, len as int);
        match find_char(s, c, start) {
            Some(j) => {
                proof {
                    lemma_find_char_shift(s@, c, start as int, 0);
                    lemma_find_char_from(s@, c, start as int);
                    assert(find_char_from(sub, c, 0) == Option::Some(j - start));
                    assert(sub.subrange(0, j - start) =~= s@.subrange(start as int, j as int));
                    assert(sub.subrange(j - start + 1, sub.len() as int) =~= s@.subrange(
                        j + 1,
                        len as int,
                    ));
                }
                let piece = s.substring_char(start, j).to_owned();
                let ghost old_r = r.deep_view();
                r.push(piece);
                proof {
                    assert(r.deep_view() =~= old_r.push(piece@));
                }
                start = j + 1;
            },
            None => {
                proof {
                    lemma_find_char_shift(s@, c, start as int, 0);
                    assert(find_char_from(sub, c, 0) is None);
                }
                let piece = s.substring_char(start, len).to_owned();
                let ghost old_r = r.deep_view();
                r.push(piece);
                proof {
                    assert(r.deep_view() =~= old_r.push(piece@));
                    assert(split_spec(sub, c) =~~= seq![sub]);
                }
                return r;
            },
        }
    }
}

/// Removing the leading spaces leaves the suffix from the first
/// non-space position.
pub proof fn lemma_trim_start_at(s: Seq<char>, k: int)
    requires
        0 <= k <= s.len(),
        forall|j: int| 0 <= j < k ==> is_space(#[trigger] s[j]),
        k < s.len() ==> !is_space(s[k]),
    ensures
        trim_start_spec(s) == s.subrange(k, s.len() as int),
    decreases k,
{
    if k == 0 {
        assert(s.subrange(0, s.len() as int) =~= s);
    } else {
        let s1 = s.drop_first();
        assert(s1 =~= s.subrange(1, s.len() as int));
        lemma_trim_start_at(s1, k - 1);
        assert(s1.subrange(k - 1, s1.len() as int) =~= s.subrange(k, s.len() as int));
    }
}

/// Removing the trailing spaces leaves the prefix up to the last
/// non-space position.
pub proof fn lemma_trim_end_at(s: Seq<char>, m: int)
    requires
        0 <= m <= s.len(),
        forall|j: int| m <= j < s.len() ==> is_space(#[trigger] s[j]),
        m > 0 ==> !is_space(s[m - 1]),
    ensures
        trim_end_spec(s) == s.subrange(0, m),
    decreases s.len() - m,
{
    if m == s.len() {
        assert(s.subrange(0, m) =~= s);
    } else {
        let s1 = s.drop_last();
        assert(s1 =~= s.subrange(0, s.len() - 1));
        lemma_trim_end_at(s1, m);
        assert(s1.subrange(0, m) =~= s.subrange(0, m));
    }
}

pub fn is_space_char(c: char) -> (r: bool)
    ensures
        r == is_space(c),
{
    c == ' ' || c == '\t' || c == '\n' || c == '\r'
}

/// `s` with surrounding spaces removed, as `trim_spec` describes.
pub fn trim_spaces<'a>(s: &'a str) -> (r: &'a str)
    ensures
        r@ == trim_spec(s@),
{
    let len = s.unicode_len();
    let mut lo: usize = 0;
    while lo < len && is_space_char(s.get_char(lo))
        invariant
            len == s@.len(),
            0 <= lo <= len,
            forall|j: int| 0 <= j < lo ==> is_space(#[trigger] s@[j]),
        decreases len - lo,
    {
        lo = lo + 1;
    }
    let mut hi: usize = len;
    while hi > lo && is_space_char(s.get_char(hi - 1))
        invariant
            len == s@.len(),
            lo <= hi <= len,
            forall|j: int| hi <= j < len ==> is_space(#[trigger] s@[j]),
        decreases hi,
    {
        hi = hi - 1;
    }
    let r = s.substring_char(lo, hi);
    proof {
        lemma_trim_start_at(s@, lo as int);
        let t = s@.subrange(lo as int, len as int);
        lemma_trim_end_at(t, hi - lo);
        assert(t.subrange(0, hi - lo) =~= s@.subrange(lo as int, hi as int));
    }
    r
}

fn digit_str(d: u64) -> (r: &'static str)
    requires
        d < 10,
    ensures
        r@ =~= seq![digit_char(d as nat)],
{
    let r = match d {
        0 => "0",
        1 => "1",
        2 => "2",
        3 => "3",
        4 => "4",
        5 => "5",
        6 => "6",
        7 => "7",
        8 => "8",
        _ => "9",
    };
    proof {
        reveal_strlit("0");
        reveal_strlit("1");
        reveal_strlit("2");
        reveal_strlit("3");
        reveal_strlit("4");
        reveal_strlit("5");
        reveal_strlit("6");
        reveal_strlit("7");
        reveal_strlit("8");
        reveal_strlit("9");
    }
    r
}

/// Decimal rendering of an unsigned number.
pub fn u64_to_string(n: u64) -> (r: String)
    ensures
        r@ == dec_digits(n as nat),
    decreases n,
{
    if n < 10 {
        let mut s = String::new();
        s.append(digit_str(n));
        s
    } else {
        let mut s = u64_to_string(n / 10);
        s.append(digit_str(n % 10));
        s
    }
}

/// Decimal rendering of a signed number: a minus sign, then the digits
/// of its magnitude.
pub open spec fn dec_int(n: int) -> Seq<char> {
    if n < 0 {
        seq!['-'] + dec_digits((-n) as nat)
    } else {
        dec_digits(n as nat)
    }
}

pub fn i32_to_string(n: i32) -> (r: String)
    ensures
        r@ == dec_int(n as int),
{
    if n >= 0 {
        u64_to_string(n as u64)
    } else {
        let mag: u64 = (-(n as i64)) as u64;
        let mut s = String::new();
        s.append("-");
        s.append(u64_to_string(mag).as_str());
        proof {
            reveal_strlit("-");
            assert(s@ =~= seq!['-'] + dec_digits(mag as nat));
        }
        s
    }
}

/// A longer digit string stands for at least as large a number.
pub proof fn lemma_parse_digits_prefix(s: Seq<char>, k: int)
    requires
        0 <= k <= s.len(),
    ensures
        parse_digits(s.subrange(0, k)) <= parse_digits(s),
    decreases s.len() - k,
{
    if k < s.len() {
        let t = s.subrange(0, k + 1);
        assert(t.drop_last() =~= s.subrange(0, k));
        assert(parse_digits(s.subrange(0, k)) <= parse_digits(t));
        lemma_parse_digits_prefix(s, k + 1);
        assert(s.subrange(0, s.len() as int) =~= s);
    } else {
        assert(s.subrange(0, k) =~= s);
    }
}

/// A decimal rendering consists of digits alone.
pub proof fn lemma_dec_digits_are_digits(n: nat)
    ensures
        dec_digits(n).len() > 0,
        all_digits(dec_digits(n)),
    decreases n,
{
    if n >= 10 {
        lemma_dec_digits_are_digits(n / 10);
        assert forall|i: int| 0 <= i < dec_digits(n).len() implies is_digit(
            #[trigger] dec_digits(n)[i],
        ) by {
            if i < dec_digits(n / 10).len() {
                assert(dec_digits(n)[i] == dec_digits(n / 10)[i]);
            }
        }
    }
}

/// Reading a decimal rendering back gives the number itself.
pub proof fn lemma_parse_of_dec(n: nat)
    ensures
        parse_digits(dec_digits(n)) == n,
    decreases n,
{
    assert forall|d: nat| d < 10 implies digit_val(digit_char(d)) == d by {
        if d == 0 {
            assert('0' as int == 48);
        } else if d == 1 {
            assert('1' as int == 49);
        } else if d == 2 {
            assert('2' as int == 50);
        } else if d == 3 {
            assert('3' as int == 51);
        } else if d == 4 {
            assert('4' as int == 52);
        } else if d == 5 {
            assert('5' as int == 53);
        } else if d == 6 {
            assert('6' as int == 54);
        } else if d == 7 {
            assert('7' as int == 55);
        } else {
            assert('8' as int == 56);
            assert('9' as int == 57);
        }
    }
    if n < 10 {
        let s = dec_digits(n);
        assert(s.len() == 1);
        assert(s.drop_last() =~= Seq::<char>::empty());
        assert(parse_digits(s.drop_last()) == 0);
        assert(s.last() == digit_char(n));
        assert(digit_val(digit_char(n)) == n);
        assert(parse_digits(s) == parse_digits(s.drop_last()) * 10 + digit_val(s.last()));
        assert(parse_digits(s) == n);
    } else {
        lemma_parse_of_dec(n / 10);
        let s = dec_digits(n);
        assert(s.drop_last() =~= dec_digits(n / 10));
        assert(s.last() == digit_char(n % 10));
    }
}

/// The number a string of decimal digits denotes, when it has one and it
/// fits.
pub fn parse_u64(s: &str) -> (r: Option<u64>)
    ensures
        match r {
            Option::Some(v) => s@.len() > 0 && all_digits(s@) && v as nat == parse_digits(s@),
            Option::None => s@.len() == 0 || !all_digits(s@) || parse_digits(s@) > u64::MAX,
        },
{
    let len = s.unicode_len();
    if len == 0 {
        return None;
    }
    let mut acc: u64 = 0;
    let mut i: usize = 0;
    while i < len
        invariant
            len == s@.len(),
            0 <= i <= len,
            forall|j: int| 0 <= j < i ==> is_digit(#[trigger] s@[j]),
            acc as nat == parse_digits(s@.subrange(0, i as int)),
        decreases len - i,
    {
        let c = s.get_char(i);
        let cv = c as u32;
        if cv < 48 || cv > 57 {
            return None;
        }
        let d: u64 = ((cv - 48) as u64);
        let limit: u64 = (u64::MAX - d) / 10;
        proof {
            assert(s@.subrange(0, i + 1).drop_last() =~= s@.subrange(0, i as int));
            assert(parse_digits(s@.subrange(0, i + 1)) == parse_digits(
                s@.subrange(0, i as int),
            ) * 10 + digit_val(s@[i as int]));
        }
        if acc > limit {
            proof {
                let m = u64::MAX as nat;
                assert(acc as nat * 10 + d as nat > m) by (nonlinear_arith)
                    requires
                        acc as nat > (m - d as nat) / 10,
                        d as nat <= m,
                ;
                if all_digits(s@) {
                    lemma_parse_digits_prefix(s@, i + 1);
                }
            }
            return None;
        }
        proof {
            let m = u64::MAX as nat;
            assert(acc as nat * 10 + d as nat <= m) by (nonlinear_arith)
                requires
                    acc as nat <= (m - d as nat) / 10,
                    d as nat <= m,
            ;
        }
        acc = acc * 10 + d;
        i = i + 1;
    }
    proof {
        assert(s@.subrange(0, len as int) =~= s@);
    }
    Some(acc)
}

} // verus!
