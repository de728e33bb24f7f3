//! Verified text utilities: string comparison and search, placeholder
//! masking, quote stripping, and decimal rendering of line numbers.

use vstd::prelude::*;

verus! {

/// The views of a sequence of strings.
pub open spec fn string_views(s: Seq<String>) -> Seq<Seq<char>> {
    s.map_values(|x: String| x@)
}

/// Character-wise equality of two string slices.
pub fn str_eq(a: &str, b: &str) -> (r: bool)
    ensures
        r == (a@ == b@),
{
    let n = a.unicode_len();
    if n != b.unicode_len() {
        return false;
    }
    let mut i: usize = 0;
    while i < n
        invariant
            n == a@.len(),
            n == b@.len(),
            i <= n,
            forall|j: int| 0 <= j < i ==> a@[j] == b@[j],
        decreases n - i,
    {
        if a.get_char(i) != b.get_char(i) {
            return false;
        }
        i = i + 1;
    }
    proof {
        assert(a@ =~= b@);
    }
    true
}

/// Whether `needle` occurs as a contiguous subsequence of `hay`.
pub open spec fn contains_seq(hay: Seq<char>, needle: Seq<char>) -> bool {
    exists|k: int|
        #![trigger hay.subrange(k, k + needle.len())]
        0 <= k && k + needle.len() <= hay.len() && hay.subrange(k, k + needle.len()) == needle
}

/// Substring search, character by character.
pub fn str_contains(hay: &str, needle: &str) -> (r: bool)
    ensures
        r == contains_seq(hay@, needle@),
{
    let hn = hay.unicode_len();
    let nn = needle.unicode_len();
    if nn > hn {
        return false;
    }
    if nn == 0 {
        proof {
            let l = needle@.len() as int;
            assert(hay@.subrange(0, 0 + l) =~= needle@);
            assert(contains_seq(hay@, needle@));
        }
        return true;
    }
    let mut k: usize = 0;
    while k <= hn - nn
        invariant
            hn == hay@.len(),
            nn == needle@.len(),
            1 <= nn <= hn,
            k <= hn - nn + 1,
            forall|k2: int|
                #![trigger hay@.subrange(k2, k2 + needle@.len())]
                0 <= k2 < k ==> hay@.subrange(k2, k2 + needle@.len()) != needle@,
        decreases hn - k,
    {
        let mut j: usize = 0;
        let mut matched: bool = true;
        while j < nn
            invariant
                hn == hay@.len(),
                nn == needle@.len(),
                k + nn <= hn,
                j <= nn,
                matched ==> forall|l: int| 0 <= l < j ==> hay@[k + l] == needle@[l],
                !matched ==> hay@.subrange(k as int, k + needle@.len()) != needle@,
        decreases nn - j,
        {
            if hay.get_char(k + j) != needle.get_char(j) {
                proof {
                    assert(hay@.subrange(k as int, k + needle@.len())[j as int] == hay@[k + j]);
                }
                matched = false;
                j = nn;
            } else {
                j = j + 1;
            }
        }
        if matched {
            proof {
                assert(hay@.subrange(k as int, k + needle@.len()) =~= needle@);
            }
            return true;
        }
        k = k + 1;
    }
    proof {
        assert forall|k2: int|
            0 <= k2 && k2 + needle@.len() <= hay@.len() implies #[trigger] hay@.subrange(
            k2,
            k2 + needle@.len(),
        ) != needle@ by {
            assert(k2 < k);
        }
    }
    false
}

/// Index of the first `}` at or after `j`, unless a line break comes first.
pub open spec fn find_close(s: Seq<char>, j: int) -> Option<int>
    decreases s.len() - j,
{
    if j < 0 || j >= s.len() {
        None
    } else if s[j] == '}' {
        Some(j)
    } else if s[j] == '\n' {
        None
    } else {
        find_close(s, j + 1)
    }
}

proof fn lemma_find_close_bounds(s: Seq<char>, j: int)
    ensures
        match find_close(s, j) {
            Some(k) => j <= k < s.len() && s[k] == '}',
            None => true,
        },
    decreases s.len() - j,
{
    if 0 <= j < s.len() && s[j] != '}' && s[j] != '\n' {
        lemma_find_close_bounds(s, j + 1);
    }
}

/// The text from position `i` on, with every `{...}` placeholder that closes
/// before a line break replaced by the single character `1`.
pub open spec fn mask_from(s: Seq<char>, i: int) -> Seq<char>
    decreases s.len() - i,
    via mask_from_decreases
{
    if i < 0 || i >= s.len() {
        Seq::empty()
    } else if s[i] == '{' && find_close(s, i + 1) is Some {
        seq!['1'] + mask_from(s, find_close(s, i + 1)->Some_0 + 1)
    } else {
        seq![s[i]] + mask_from(s, i + 1)
    }
}

#[via_fn]
proof fn mask_from_decreases(s: Seq<char>, i: int) {
    lemma_find_close_bounds(s, i + 1);
}

/// The whole text with `{...}` placeholders replaced by `1`.
pub open spec fn masked(s: Seq<char>) -> Seq<char> {
    mask_from(s, 0)
}

proof fn lemma_find_close_scan(s: Seq<char>, start: int, j: int)
    requires
        0 <= start <= j <= s.len(),
        forall|l: int| start <= l < j ==> s[l] != '}' && s[l] != '\n',
    ensures
        j < s.len() && s[j] == '}' ==> find_close(s, start) == Some(j),
        j == s.len() ==> find_close(s, start) is None,
        j < s.len() && s[j] == '\n' ==> find_close(s, start) is None,
    decreases j - start,
{
    if start < j {
        lemma_find_close_scan(s, start + 1, j);
    }
}

/// Replace every `{...}` placeholder, non-greedily and within one line, by `1`.
pub fn mask_braces(s: &str) -> (r: String)
    ensures
        r@ == masked(s@),
{
    let n = s.unicode_len();
    let mut out = String::new();
    proof {
        assert(out@ + mask_from(s@, 0) =~= mask_from(s@, 0));
    }
    let mut i: usize = 0;
    while i < n
        invariant
            n == s@.len(),
            i <= n,
            out@ + mask_from(s@, i as int) == masked(s@),
        decreases n - i,
    {
        let ghost prev = out@;
        let c = s.get_char(i);
        if c == '{' {
            let mut j: usize = i + 1;
            let mut found: bool = false;
            let mut stopped: bool = false;
            while !found && !stopped && j < n
                invariant
                    n == s@.len(),
                    i + 1 <= j <= n,
                    forall|l: int| i + 1 <= l < j ==> s@[l] != '}' && s@[l] != '\n',
                    found ==> j < n && s@[j as int] == '}',
                    stopped ==> j < n && s@[j as int] == '\n',
                    !(found && stopped),
                decreases n - j, (if !found && !stopped { 1int } else { 0int }),
            {
                let cj = s.get_char(j);
                if cj == '}' {
                    found = true;
                } else if cj == '\n' {
                    stopped = true;
                } else {
                    j = j + 1;
                }
            }
            proof {
                lemma_find_close_scan(s@, i + 1, j as int);
            }
            if found {
                let ghost oldi = i as int;
                out.append("1");
                i = j + 1;
                proof {
                    reveal_strlit("1");
                    assert("1"@ =~= seq!['1']);
                    assert(find_close(s@, oldi + 1) == Some(j as int));
                    assert(mask_from(s@, oldi) == seq!['1'] + mask_from(s@, i as int));
                    assert(out@ + mask_from(s@, i as int) =~= prev + (seq!['1'] + mask_from(
                        s@,
                        i as int,
                    )));
                }
            } else {
                let piece = s.substring_char(i, i + 1);
                proof {
                    assert(piece@ =~= seq![s@[i as int]]);
                }
                out.append(piece);
                i = i + 1;
                proof {
                    assert(out@ + mask_from(s@, i as int) =~= prev + (seq![s@[i - 1]] + mask_from(
                        s@,
                        i as int,
                    )));
                }
            }
        } else {
            let piece = s.substring_char(i, i + 1);
            proof {
                assert(piece@ =~= seq![s@[i as int]]);
            }
            out.append(piece);
            i = i + 1;
            proof {
                assert(out@ + mask_from(s@, i as int) =~= prev + (seq![s@[i - 1]] + mask_from(
                    s@,
                    i as int,
                )));
            }
        }
    }
    proof {
        assert(out@ + mask_from(s@, n as int) =~= out@);
    }
    out
}

/// The text with every double-quote character removed.
pub open spec fn without_quotes_from(s: Seq<char>, i: int) -> Seq<char>
    decreases s.len() - i,
{
    if i < 0 || i >= s.len() {
        Seq::empty()
    } else if s[i] == '"' {
        without_quotes_from(s, i + 1)
    } else {
        seq![s[i]] + without_quotes_from(s, i + 1)
    }
}

pub open spec fn without_quotes(s: Seq<char>) -> Seq<char> {
    without_quotes_from(s, 0)
}

/// Remove every double-quote character.
pub fn strip_quotes(s: &str) -> (r: String)
    ensures
        r@ == without_quotes(s@),
{
    let n = s.unicode_len();
    let mut out = String::new();
    proof {
        assert(out@ + without_quotes_from(s@, 0) =~= without_quotes_from(s@, 0));
    }
    let mut i: usize = 0;
    while i < n
        invariant
            n == s@.len(),
            i <= n,
            out@ + without_quotes_from(s@, i as int) == without_quotes(s@),
        decreases n - i,
    {
        let ghost prev = out@;
        let c = s.get_char(i);
        if c != '"' {
            let piece = s.substring_char(i, i + 1);
            proof {
                assert(piece@ =~= seq![s@[i as int]]);
            }
            out.append(piece);
            i = i + 1;
            proof {
                assert(out@ + without_quotes_from(s@, i as int) =~= prev + (seq![s@[i - 1]]
                    + without_quotes_from(s@, i as int)));
            }
        } else {
            i = i + 1;
        }
    }
    proof {
        assert(out@ + without_quotes_from(s@, n as int) =~= out@);
    }
    out
}

/// The decimal digit for a value below ten.
pub open spec fn dec_digit(d: int) -> char {
    if d == 0 {
        '0'
    } else if d == 1 {
        '1'
    } else if d == 2 {
        '2'
    } else if d == 3 {
        '3'
    } else if d == 4 {
        '4'
    } else if d == 5 {
        '5'
    } else if d == 6 {
        '6'
    } else if d == 7 {
        '7'
    } else if d == 8 {
        '8'
    } else {
        '9'
    }
}

/// The decimal rendering of a natural number, most significant digit first.
pub open spec fn dec_str(n: nat) -> Seq<char>
    decreases n,
{
    if n <= 9 {
        seq![dec_digit(n as int)]
    } else {
        dec_str(n / 10).push(dec_digit((n % 10) as int))
    }
}

pub proof fn lemma_dec_str_digits(n: nat)
    ensures
        dec_str(n).len() >= 1,
        forall|i: int| 0 <= i < dec_str(n).len() ==> '0' <= #[trigger] dec_str(n)[i] <= '9',
        n >= 1 ==> dec_str(n)[0] != '0',
    decreases n,
{
    if n > 9 {
        lemma_dec_str_digits(n / 10);
    }
}

fn append_digit(s: &mut String, d: u8)
    requires
        d < 10,
    ensures
        final(s)@ == old(s)@.push(dec_digit(d as int)),
{
    if d == 0 {
        proof {
            reveal_strlit("0");
        }
        s.append("0");
    } else if d == 1 {
        proof {
            reveal_strlit("1");
        }
        s.append("1");
    } else if d == 2 {
        proof {
            reveal_strlit("2");
        }
        s.append("2");
    } else if d == 3 {
        proof {
            reveal_strlit("3");
        }
        s.append("3");
    } else if d == 4 {
        proof {
            reveal_strlit("4");
        }
        s.append("4");
    } else if d == 5 {
        proof {
            reveal_strlit("5");
        }
        s.append("5");
    } else if d == 6 {
        proof {
            reveal_strlit("6");
        }
        s.append("6");
    } else if d == 7 {
        proof {
            reveal_strlit("7");
        }
        s.append("7");
    } else if d == 8 {
        proof {
            reveal_strlit("8");
        }
        s.append("8");
    } else {
        proof {
            reveal_strlit("9");
        }
        s.append("9");
    }
    proof {
        assert(s@ =~= old(s)@.push(dec_digit(d as int)));
    }
}

/// The characters of a digit list, least significant first, read back most
/// significant first.
spec fn digits_rev_chars(digits: Seq<u8>) -> Seq<char> {
    digits.map_values(|d: u8| dec_digit(d as int)).reverse()
}

/// Render a number in decimal.
pub fn to_decimal_string(n: usize) -> (r: String)
    ensures
        r@ == dec_str(n as nat),
{
    if n == 0 {
        let mut out = String::new();
        append_digit(&mut out, 0);
        proof {
            assert(out@ =~= dec_str(n as nat));
        }
        return out;
    }
    let mut digits: Vec<u8> = Vec::new();
    let mut m: usize = n;
    proof {
        assert(dec_str(n as nat) + digits_rev_chars(digits@) =~= dec_str(n as nat));
    }
    while m > 0
        invariant
            m > 0 ==> dec_str(n as nat) == dec_str(m as nat) + digits_rev_chars(digits@),
            m == 0 ==> dec_str(n as nat) == digits_rev_chars(digits@),
            forall|j: int| 0 <= j < digits@.len() ==> digits@[j] < 10,
        decreases m,
    {
        let d: u8 = (m % 10) as u8;
        let m2: usize = m / 10;
        proof {
            let olddigits = digits@;
            assert(digits_rev_chars(olddigits.push(d)) =~= seq![dec_digit(d as int)]
                + digits_rev_chars(olddigits));
            if m <= 9 {
                assert(m2 == 0);
                assert(dec_str(m as nat) == seq![dec_digit(d as int)]);
                assert(dec_str(n as nat) =~= digits_rev_chars(olddigits.push(d)));
            } else {
                assert(dec_str(m as nat) == dec_str(m2 as nat).push(dec_digit(d as int)));
                assert(dec_str(m as nat) =~= dec_str(m2 as nat) + seq![dec_digit(d as int)]);
                assert(dec_str(n as nat) =~= dec_str(m2 as nat) + digits_rev_chars(
                    olddigits.push(d),
                ));
            }
        }
        digits.push(d);
        m = m2;
    }
    let ghost full = digits_rev_chars(digits@);
    let mut out = String::new();
    let mut i: usize = digits.len();
    proof {
        assert(out@ =~= full.subrange(0, digits@.len() - i));
    }
    while i > 0
        invariant
            i <= digits@.len(),
            full == digits_rev_chars(digits@),
            dec_str(n as nat) == full,
            out@ == full.subrange(0, digits@.len() - i),
            forall|j: int| 0 <= j < digits@.len() ==> digits@[j] < 10,
        decreases i,
    {
        i = i - 1;
        let d = digits[i];
        append_digit(&mut out, d);
        proof {
            assert(full[digits@.len() - 1 - i] == dec_digit(digits@[i as int] as int));
            assert(out@ =~= full.subrange(0, digits@.len() - i));
        }
    }
    proof {
        assert(out@ =~= full);
    }
    out
}

} // verus!
