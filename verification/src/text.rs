//! Character-level text helpers: splitting on a separator, string equality,
//! and decimal parsing for ports and pay rates.

use vstd::prelude::*;

verus! {

/// Splits `s` at every occurrence of `sep`. The result always has one more
/// element than there are separators; an empty input gives one empty piece.
pub open spec fn spec_split(s: Seq<char>, sep: char) -> Seq<Seq<char>>
    decreases s.len(),
{
    if s.len() == 0 {
        seq![Seq::<char>::empty()]
    } else if s[0] == sep {
        seq![Seq::<char>::empty()] + spec_split(s.drop_first(), sep)
    } else {
        let rest = spec_split(s.drop_first(), sep);
        seq![seq![s[0]] + rest[0]] + rest.drop_first()
    }
}

/// The views of a sequence of owned strings.
pub open spec fn views_of(parts: Seq<String>) -> Seq<Seq<char>> {
    parts.map_values(|p: String| p@)
}

pub proof fn lemma_views_of_push(parts: Seq<String>, p: String)
    ensures
        views_of(parts.push(p)) == views_of(parts).push(p@),
{
    assert(views_of(parts.push(p)) =~~= views_of(parts).push(p@));
}

pub proof fn lemma_split_nonempty(s: Seq<char>, sep: char)
    ensures
        spec_split(s, sep).len() >= 1,
    decreases s.len(),
{
    if s.len() != 0 {
        lemma_split_nonempty(s.drop_first(), sep);
    }
}

/// Splitting a separator-free piece yields just that piece.
pub proof fn lemma_split_no_sep(s: Seq<char>, sep: char)
    requires
        forall|i: int| 0 <= i < s.len() ==> s[i] != sep,
    ensures
        spec_split(s, sep) == seq![s],
    decreases s.len(),
{
    if s.len() == 0 {
        assert(s =~= Seq::<char>::empty());
        assert(spec_split(s, sep) =~~= seq![s]);
    } else {
        let rest = s.drop_first();
        lemma_split_no_sep(rest, sep);
        lemma_split_nonempty(rest, sep);
        assert(seq![s[0]] + rest =~= s);
        assert(seq![rest].drop_first() =~= Seq::<Seq<char>>::empty());
        assert(spec_split(s, sep) =~~= seq![s]);
    }
}

/// Splitting `a + [sep] + b`, with `a` separator-free, peels off `a`.
pub proof fn lemma_split_append(a: Seq<char>, b: Seq<char>, sep: char)
    requires
        forall|i: int| 0 <= i < a.len() ==> a[i] != sep,
    ensures
        spec_split(a + seq![sep] + b, sep) == seq![a] + spec_split(b, sep),
    decreases a.len(),
{
    let s = a + seq![sep] + b;
    if a.len() == 0 {
        assert(s[0] == sep);
        assert(s.drop_first() =~= b);
        assert(a =~= Seq::<char>::empty());
        assert(spec_split(s, sep) =~~= seq![a] + spec_split(b, sep));
    } else {
        assert(s[0] == a[0]);
        let s1 = s.drop_first();
        assert(s1 =~= a.drop_first() + seq![sep] + b);
        lemma_split_append(a.drop_first(), b, sep);
        lemma_split_nonempty(b, sep);
        let rest = spec_split(s1, sep);
        assert(rest == seq![a.drop_first()] + spec_split(b, sep));
        assert(rest[0] == a.drop_first());
        assert(rest.drop_first() =~= spec_split(b, sep));
        assert(seq![s[0]] + rest[0] =~= a);
        assert(spec_split(s, sep) =~~= seq![a] + spec_split(b, sep));
    }
}

/// Splits `s` at every occurrence of the character `sep`.
pub fn split_str(s: &str, sep: char) -> (parts: Vec<String>)
    ensures
        views_of(parts@) == spec_split(s@, sep),
{
    let n = s.unicode_len();
    let mut parts: Vec<String> = Vec::new();
    let mut start: usize = 0;
    let mut i: usize = 0;
    proof {
        assert(views_of(parts@) =~= Seq::<Seq<char>>::empty());
        assert(s@.subrange(0, n as int) =~= s@);
        assert(spec_split(s@, sep) =~= views_of(parts@) + spec_split(s@, sep));
    }
    while i < n
        invariant
            n == s@.len(),
            start <= i <= n,
            forall|k: int| start <= k < i ==> s@[k] != sep,
            spec_split(s@, sep) == views_of(parts@) + spec_split(
                s@.subrange(start as int, n as int),
                sep,
            ),
        decreases n - i,
    {
        let c = s.get_char(i);
        if c == sep {
            let piece = s.substring_char(start, i).to_owned();
            proof {
                let seg = s@.subrange(start as int, i as int);
                let tail = s@.subrange(i as int + 1, n as int);
                assert(s@.subrange(start as int, n as int) =~= seg + seq![sep] + tail);
                lemma_split_append(seg, tail, sep);
                lemma_views_of_push(parts@, piece);
                assert(views_of(parts@.push(piece)) + spec_split(tail, sep) =~= views_of(parts@)
                    + (seq![seg] + spec_split(tail, sep)));
            }
            parts.push(piece);
            start = i + 1;
        }
        i = i + 1;
    }
    let piece = s.substring_char(start, n).to_owned();
    proof {
        let seg = s@.subrange(start as int, n as int);
        lemma_split_no_sep(seg, sep);
        lemma_views_of_push(parts@, piece);
        assert(views_of(parts@) + seq![seg] =~= views_of(parts@).push(piece@));
    }
    parts.push(piece);
    parts
}

/// Character-for-character string equality.
pub fn eq_str(a: &str, b: &str) -> (r: bool)
    ensures
        r == (a@ == b@),
{
    let na = a.unicode_len();
    let nb = b.unicode_len();
    if na != nb {
        return false;
    }
    let mut i: usize = 0;
    while i < na
        invariant
            na == a@.len(),
            na == b@.len(),
            i <= na,
            forall|k: int| 0 <= k < i ==> a@[k] == b@[k],
        decreases na - i,
    {
        if a.get_char(i) != b.get_char(i) {
            return false;
        }
        i = i + 1;
    }
    proof {
        assert(a@ =~= b@);
    }
    true
}

pub open spec fn is_digit(c: char) -> bool {
    48 <= c as int <= 57
}

pub open spec fn digit_of(c: char) -> int {
    c as int - 48
}

pub open spec fn all_digits(s: Seq<char>) -> bool {
    forall|i: int| 0 <= i < s.len() ==> is_digit(s[i])
}

/// The number written by a string of decimal digits, most significant first.
pub open spec fn digits_val(s: Seq<char>) -> int
    decreases s.len(),
{
    if s.len() == 0 {
        0
    } else {
        digits_val(s.drop_last()) * 10 + digit_of(s.last())
    }
}

pub proof fn lemma_digits_val_nonneg(s: Seq<char>)
    requires
        all_digits(s),
    ensures
        digits_val(s) >= 0,
    decreases s.len(),
{
    if s.len() > 0 {
        lemma_digits_val_nonneg(s.drop_last());
    }
}

/// Reads a non-empty all-digit string as a `u32`; anything else is `None`.
pub fn parse_u32_digits(s: &str) -> (r: Option<u32>)
    ensures
        r == (if s@.len() > 0 && all_digits(s@) && digits_val(s@) <= u32::MAX {
            Some(digits_val(s@) as u32)
        } else {
            None::<u32>
        }),
{
    let n = s.unicode_len();
    if n == 0 {
        return None;
    }
    let mut acc: u64 = 0;
    let mut over: bool = false;
    let mut i: usize = 0;
    proof {
        assert(s@.subrange(0, 0) =~= Seq::<char>::empty());
    }
    while i < n
        invariant
            n == s@.len(),
            i <= n,
            all_digits(s@.subrange(0, i as int)),
            !over ==> acc == digits_val(s@.subrange(0, i as int)) && acc <= u32::MAX,
            over ==> digits_val(s@.subrange(0, i as int)) > u32::MAX,
        decreases n - i,
    {
        let c = s.get_char(i);
        let cu = c as u32;
        if cu < 48 || cu > 57 {
            assert(!is_digit(s@[i as int]));
            return None;
        }
        let d = (cu - 48) as u64;
        proof {
            let pre = s@.subrange(0, i as int);
            let post = s@.subrange(0, i as int + 1);
            assert(post.drop_last() =~= pre);
            assert(post.last() == s@[i as int]);
            if over {
                lemma_digits_val_nonneg(pre);
            }
        }
        if !over {
            let acc2 = acc * 10 + d;
            if acc2 > 0xFFFF_FFFFu64 {
                over = true;
            } else {
                acc = acc2;
            }
        }
        i = i + 1;
    }
    proof {
        assert(s@.subrange(0, n as int) =~= s@);
    }
    if over {
        None
    } else {
        Some(acc as u32)
    }
}

/// The digit part of a port string: an optional leading `+` is allowed.
pub open spec fn spec_port_digits(s: Seq<char>) -> Seq<char> {
    if s.len() > 0 && s[0] == '+' {
        s.drop_first()
    } else {
        s
    }
}

/// A valid listen port: decimal digits (with optional `+` sign) naming a
/// number between 1 and 65535.
pub open spec fn spec_is_valid_port(s: Seq<char>) -> bool {
    let d = spec_port_digits(s);
    d.len() > 0 && all_digits(d) && 0 < digits_val(d) <= 65535
}

/// Decides whether `port` is a usable TCP port number.
pub fn is_valid_port(port: &str) -> (b: bool)
    ensures
        b == spec_is_valid_port(port@),
{
    let n = port.unicode_len();
    let digits: &str = if n > 0 && port.get_char(0) == '+' {
        let d = port.substring_char(1, n);
        proof {
            assert(d@ =~= spec_port_digits(port@));
        }
        d
    } else {
        port
    };
    match parse_u32_digits(digits) {
        Some(v) => {
            proof {
                lemma_digits_val_nonneg(digits@);
            }
            1 <= v && v <= 65535
        },
        None => false,
    }
}

/// The value of at most the first two fraction digits, in cents.
pub open spec fn frac2_val(fp: Seq<char>) -> int {
    if fp.len() == 0 {
        0
    } else if fp.len() == 1 {
        digit_of(fp[0]) * 10
    } else {
        digit_of(fp[0]) * 10 + digit_of(fp[1])
    }
}

/// The rate in cents named by an integer part and a fraction part; 0 when the
/// parts are not all digits, the integer part is empty, or the value does not
/// fit a `u32`. Fraction digits beyond the second are ignored.
pub open spec fn cents_of_parts(ip: Seq<char>, fp: Seq<char>) -> int {
    if ip.len() > 0 && all_digits(ip) && all_digits(fp) {
        let v = digits_val(ip) * 100 + frac2_val(fp);
        if v <= u32::MAX {
            v
        } else {
            0
        }
    } else {
        0
    }
}

/// The cents named by a decimal rate string such as `25` or `45.5`;
/// unparsable input counts as 0.
pub open spec fn spec_rate_cents(s: Seq<char>) -> int {
    let ps = spec_split(s, '.');
    if ps.len() == 1 {
        cents_of_parts(ps[0], Seq::<char>::empty())
    } else if ps.len() == 2 {
        cents_of_parts(ps[0], ps[1])
    } else {
        0
    }
}

/// Decides whether every character of `s` is a decimal digit.
pub fn check_all_digits(s: &str) -> (b: bool)
    ensures
        b == all_digits(s@),
{
    let n = s.unicode_len();
    let mut i: usize = 0;
    while i < n
        invariant
            n == s@.len(),
            i <= n,
            forall|k: int| 0 <= k < i ==> is_digit(s@[k]),
        decreases n - i,
    {
        let cu = s.get_char(i) as u32;
        if cu < 48 || cu > 57 {
            assert(!is_digit(s@[i as int]));
            return false;
        }
        i = i + 1;
    }
    true
}

/// Parses an hourly rate written as a decimal string into whole cents,
/// substituting 0 for anything unparsable.
pub fn parse_rate_cents(s: &str) -> (r: u32)
    ensures
        r as int == spec_rate_cents(s@),
{
    let parts = split_str(s, '.');
    proof {
        lemma_split_nonempty(s@, '.');
    }
    if parts.len() > 2 {
        return 0;
    }
    let ip: &str = parts[0].as_str();
    let mut f2: u32 = 0;
    if parts.len() == 2 {
        let fp: &str = parts[1].as_str();
        if !check_all_digits(fp) {
            return 0;
        }
        let fn_ = fp.unicode_len();
        if fn_ >= 1 {
            let d0 = fp.get_char(0) as u32;
            f2 = (d0 - 48) * 10;
            if fn_ >= 2 {
                let d1 = fp.get_char(1) as u32;
                f2 = f2 + (d1 - 48);
            }
        }
    }
    match parse_u32_digits(ip) {
        Some(iv) => {
            proof {
                lemma_digits_val_nonneg(ip@);
            }
            let total = (iv as u64) * 100 + (f2 as u64);
            if total > 0xFFFF_FFFFu64 {
                0
            } else {
                total as u32
            }
        },
        None => 0,
    }
}

} // verus!
