//! Verified character-level string helpers used by the attribute grammars:
//! whitespace tokenization, separator splitting, ASCII case folding and
//! unsigned decimal parsing, each specified over `Seq<char>`.
use vstd::prelude::*;
use vstd::string::StrSliceExecFns;
use vstd::string::StringExecFns;

verus! {

/// The whitespace characters the tokenizers split on (the ASCII whitespace set).
pub open spec fn is_ws_char(c: char) -> bool {
    c == ' ' || c == '\t' || c == '\n' || c == '\r' || c == '\u{b}' || c == '\u{c}'
}

/// Length of the leading run of non-whitespace characters.
pub open spec fn nonws_run(s: Seq<char>) -> int
    decreases s.len(),
{
    if s.len() == 0 || is_ws_char(s[0]) {
        0
    } else {
        1 + nonws_run(s.drop_first())
    }
}

proof fn lemma_nonws_run_bounds(s: Seq<char>)
    ensures
        0 <= nonws_run(s) <= s.len(),
        forall|k: int| 0 <= k < nonws_run(s) ==> !is_ws_char(s[k]),
        nonws_run(s) < s.len() ==> is_ws_char(s[nonws_run(s)]),
    decreases s.len(),
{
    if s.len() == 0 || is_ws_char(s[0]) {
    } else {
        lemma_nonws_run_bounds(s.drop_first());
        assert forall|k: int| 0 <= k < nonws_run(s) implies !is_ws_char(s[k]) by {
            if k > 0 {
                assert(s.drop_first()[k - 1] == s[k]);
            }
        }
        if nonws_run(s) < s.len() {
            assert(s.drop_first()[nonws_run(s) - 1] == s[nonws_run(s)]);
        }
    }
}

proof fn lemma_nonws_run_is(s: Seq<char>, m: int)
    requires
        0 <= m <= s.len(),
        forall|k: int| 0 <= k < m ==> !is_ws_char(s[k]),
        m == s.len() || is_ws_char(s[m]),
    ensures
        nonws_run(s) == m,
    decreases s.len(),
{
    if s.len() == 0 || is_ws_char(s[0]) {
    } else {
        assert forall|k: int| 0 <= k < m - 1 implies !is_ws_char(s.drop_first()[k]) by {
            assert(s.drop_first()[k] == s[k + 1]);
        }
        if m < s.len() {
            assert(s.drop_first()[m - 1] == s[m]);
        }
        lemma_nonws_run_is(s.drop_first(), m - 1);
    }
}

/// The sequence of maximal non-whitespace runs of `s`, in order: the
/// mathematical meaning of whitespace splitting.  Every element is nonempty.
pub open spec fn split_ws(s: Seq<char>) -> Seq<Seq<char>>
    decreases s.len(),
    via split_ws_decreases
{
    if s.len() == 0 {
        Seq::empty()
    } else if is_ws_char(s[0]) {
        split_ws(s.drop_first())
    } else {
        seq![s.take(nonws_run(s))] + split_ws(s.skip(nonws_run(s)))
    }
}

#[via_fn]
proof fn split_ws_decreases(s: Seq<char>) {
    if s.len() > 0 && !is_ws_char(s[0]) {
        lemma_nonws_run_bounds(s);
    }
}

/// Whether the exec whitespace test agrees with the spec predicate.
pub fn is_ws(c: char) -> (r: bool)
    ensures
        r == is_ws_char(c),
{
    c == ' ' || c == '\t' || c == '\n' || c == '\r' || c == '\u{b}' || c == '\u{c}'
}

/// Splits on whitespace runs, as the tokenizer of every attribute grammar.
pub fn split_whitespace_vec(s: &str) -> (r: Vec<String>)
    ensures
        r.deep_view() == split_ws(s@),
{
    let n: usize = s.unicode_len();
    let mut r: Vec<String> = Vec::new();
    let mut i: usize = 0;
    proof {
        assert(s@.skip(0) =~= s@);
        assert(r.deep_view() =~= Seq::<Seq<char>>::empty());
        assert(r.deep_view() + split_ws(s@.skip(0)) =~= split_ws(s@));
    }
    while i < n
        invariant
            0 <= i <= n,
            n == s@.len(),
            split_ws(s@) == r.deep_view() + split_ws(s@.skip(i as int)),
        decreases n - i,
    {
        let c = s.get_char(i);
        if is_ws(c) {
            proof {
                assert(s@.skip(i as int).drop_first() =~= s@.skip(i as int + 1));
            }
            i += 1;
        } else {
            let ghost prev = r.deep_view();
            let mut j: usize = i;
            while j < n && !is_ws(s.get_char(j))
                invariant
                    i <= j <= n,
                    n == s@.len(),
                    forall|k: int| i <= k < j ==> !is_ws_char(s@[k]),
                decreases n - j,
            {
                j += 1;
            }
            let tok = String::from_str(s.substring_char(i, j));
            r.push(tok);
            proof {
                let t = s@.skip(i as int);
                assert forall|k: int| 0 <= k < j - i implies !is_ws_char(t[k]) by {
                    assert(t[k] == s@[i + k]);
                }
                if j < n {
                    assert(t[j - i] == s@[j as int]);
                }
                lemma_nonws_run_is(t, j - i);
                assert(t.take(j - i) =~= s@.subrange(i as int, j as int));
                assert(t.skip(j - i) =~= s@.skip(j as int));
                assert(r.deep_view() =~= prev + seq![s@.subrange(i as int, j as int)]);
            }
            i = j;
        }
    }
    proof {
        assert(s@.skip(n as int) =~= Seq::<char>::empty());
        assert(r.deep_view() =~= r.deep_view() + split_ws(s@.skip(n as int)));
    }
    r
}

/// ASCII lower-casing of one character; everything else is untouched.
pub open spec fn lower_char(c: char) -> char {
    if 'A' <= c && c <= 'Z' {
        ((c as u8) + 32) as char
    } else {
        c
    }
}

/// ASCII lower-casing of a character sequence.
pub open spec fn to_lower(s: Seq<char>) -> Seq<char> {
    s.map_values(|c: char| lower_char(c))
}

/// ASCII case-insensitive equality: the relation every keyword table uses.
pub open spec fn ci_eq(s: Seq<char>, t: Seq<char>) -> bool {
    to_lower(s) == to_lower(t)
}

/// Whether two strings match ASCII case-insensitively.
pub fn eq_ignore_case(s: &str, t: &str) -> (r: bool)
    ensures
        r == ci_eq(s@, t@),
{
    let n: usize = s.unicode_len();
    let m: usize = t.unicode_len();
    if n != m {
        proof {
            assert(to_lower(s@).len() == s@.len());
            assert(to_lower(t@).len() == t@.len());
        }
        return false;
    }
    let mut i: usize = 0;
    while i < n
        invariant
            0 <= i <= n,
            n == s@.len() && n == t@.len(),
            forall|k: int| 0 <= k < i ==> lower_char(s@[k]) == lower_char(t@[k]),
        decreases n - i,
    {
        let a = s.get_char(i);
        let b = t.get_char(i);
        let la = if 'A' <= a && a <= 'Z' { ((a as u8) + 32) as char } else { a };
        let lb = if 'A' <= b && b <= 'Z' { ((b as u8) + 32) as char } else { b };
        if la != lb {
            proof {
                assert(to_lower(s@)[i as int] == lower_char(s@[i as int]));
                assert(to_lower(t@)[i as int] == lower_char(t@[i as int]));
            }
            return false;
        }
        i += 1;
    }
    proof {
        assert(to_lower(s@) =~= to_lower(t@));
    }
    true
}

/// Decimal digit test.
pub open spec fn is_digit(c: char) -> bool {
    '0' <= c && c <= '9'
}

/// Numeric value of one decimal digit.
pub open spec fn digit_val(c: char) -> int {
    c as int - '0' as int
}

/// Whether every character of `s` is a decimal digit.
pub open spec fn all_digits(s: Seq<char>) -> bool {
    forall|k: int| 0 <= k < s.len() ==> is_digit(s[k])
}

/// Value of a digit string read in base ten.
pub open spec fn dec_val(s: Seq<char>) -> int
    decreases s.len(),
{
    if s.len() == 0 {
        0
    } else {
        dec_val(s.drop_last()) * 10 + digit_val(s.last())
    }
}

proof fn lemma_dec_val_nonneg(s: Seq<char>)
    requires
        all_digits(s),
    ensures
        dec_val(s) >= 0,
    decreases s.len(),
{
    if s.len() > 0 {
        lemma_dec_val_nonneg(s.drop_last());
    }
}

proof fn lemma_dec_val_prefix(s: Seq<char>, m: int)
    requires
        all_digits(s),
        0 <= m <= s.len(),
    ensures
        dec_val(s) >= dec_val(s.take(m)),
    decreases s.len() - m,
{
    if m < s.len() {
        lemma_dec_val_prefix(s, m + 1);
        let t = s.take(m + 1);
        assert(t.drop_last() =~= s.take(m));
        assert(dec_val(t) == dec_val(s.take(m)) * 10 + digit_val(s[m]));
        lemma_dec_val_nonneg(s.take(m));
    } else {
        assert(s.take(m) =~= s);
    }
}

/// The digit part of a decimal number text: everything after an optional
/// leading `+` sign.
pub open spec fn digits_part(s: Seq<char>) -> Seq<char> {
    if s.len() > 0 && s[0] == '+' {
        s.drop_first()
    } else {
        s
    }
}

/// What `str::parse::<u32>` accepts and returns: an optional leading `+`,
/// then one or more decimal digits whose value fits in the type.
pub open spec fn u32_from_str(s: Seq<char>) -> Option<u32> {
    let d = digits_part(s);
    if d.len() > 0 && all_digits(d) && dec_val(d) <= u32::MAX {
        Some(dec_val(d) as u32)
    } else {
        None
    }
}

/// Unsigned 64-bit counterpart of [`u32_from_str`].
pub open spec fn u64_from_str(s: Seq<char>) -> Option<u64> {
    let d = digits_part(s);
    if d.len() > 0 && all_digits(d) && dec_val(d) <= u64::MAX {
        Some(dec_val(d) as u64)
    } else {
        None
    }
}

/// Parses an unsigned 32-bit decimal number, exactly as specified by
/// [`u32_from_str`].
pub fn parse_u32(s: &str) -> (r: Option<u32>)
    ensures
        r == u32_from_str(s@),
{
    let n: usize = s.unicode_len();
    let mut i: usize = 0;
    if n > 0 && s.get_char(0) == '+' {
        i = 1;
    }
    let ghost d: Seq<char> = digits_part(s@);
    proof {
        assert(d =~= s@.skip(i as int));
    }
    if i == n {
        return None;
    }
    let start: usize = i;
    let mut acc: u32 = 0;
    while i < n
        invariant
            start <= i <= n,
            n == s@.len(),
            d == digits_part(s@),
            d == s@.skip(start as int),
            d.len() > 0,
            forall|k: int| 0 <= k < i - start ==> is_digit(d[k]),
            acc == dec_val(d.take(i - start)),
        decreases n - i,
    {
        let c = s.get_char(i);
        if !('0' <= c && c <= '9') {
            proof {
                assert(d[i - start] == s@[i as int]);
                assert(!is_digit(d[i - start]));
                assert(!all_digits(d));
            }
            return None;
        }
        let dv: u32 = (c as u32) - ('0' as u32);
        proof {
            assert(d[i - start] == s@[i as int]);
        }
        if acc > (u32::MAX - dv) / 10 {
            proof {
                let m: int = i - start + 1;
                assert(d.take(m).drop_last() =~= d.take(i - start));
                assert(d.take(m).last() == d[i - start]);
                assert(dec_val(d.take(m)) == acc * 10 + dv);
                let q: int = (u32::MAX - dv) / 10;
                assert(q * 10 + (u32::MAX - dv) % 10 == u32::MAX - dv);
                assert(acc * 10 + dv > u32::MAX);
                if all_digits(d) {
                    lemma_dec_val_prefix(d, m);
                    assert(dec_val(d) > u32::MAX);
                }
            }
            return None;
        }
        proof {
            let m: int = i - start + 1;
            assert(d.take(m).drop_last() =~= d.take(i - start));
        }
        acc = acc * 10 + dv;
        i += 1;
    }
    proof {
        assert(d.take(n - start) =~= d);
    }
    Some(acc)
}

/// Parses an unsigned 64-bit decimal number, exactly as specified by
/// [`u64_from_str`].
pub fn parse_u64(s: &str) -> (r: Option<u64>)
    ensures
        r == u64_from_str(s@),
{
    let n: usize = s.unicode_len();
    let mut i: usize = 0;
    if n > 0 && s.get_char(0) == '+' {
        i = 1;
    }
    let ghost d: Seq<char> = digits_part(s@);
    proof {
        assert(d =~= s@.skip(i as int));
    }
    if i == n {
        return None;
    }
    let start: usize = i;
    let mut acc: u64 = 0;
    while i < n
        invariant
            start <= i <= n,
            n == s@.len(),
            d == digits_part(s@),
            d == s@.skip(start as int),
            d.len() > 0,
            forall|k: int| 0 <= k < i - start ==> is_digit(d[k]),
            acc == dec_val(d.take(i - start)),
        decreases n - i,
    {
        let c = s.get_char(i);
        if !('0' <= c && c <= '9') {
            proof {
                assert(d[i - start] == s@[i as int]);
                assert(!is_digit(d[i - start]));
                assert(!all_digits(d));
            }
            return None;
        }
        let dv: u64 = (c as u64) - ('0' as u64);
        proof {
            assert(d[i - start] == s@[i as int]);
        }
        if acc > (u64::MAX - dv) / 10 {
            proof {
                let m: int = i - start + 1;
                assert(d.take(m).drop_last() =~= d.take(i - start));
                assert(d.take(m).last() == d[i - start]);
                assert(dec_val(d.take(m)) == acc * 10 + dv);
                let q: int = (u64::MAX - dv) / 10;
                assert(q * 10 + (u64::MAX - dv) % 10 == u64::MAX - dv);
                assert(acc * 10 + dv > u64::MAX);
                if all_digits(d) {
                    lemma_dec_val_prefix(d, m);
                    assert(dec_val(d) > u64::MAX);
                }
            }
            return None;
        }
        proof {
            let m: int = i - start + 1;
            assert(d.take(m).drop_last() =~= d.take(i - start));
        }
        acc = acc * 10 + dv;
        i += 1;
    }
    proof {
        assert(d.take(n - start) =~= d);
    }
    Some(acc)
}

} // verus!

verus! {

/// Whether `c` occurs in `s`.
pub open spec fn has_char(s: Seq<char>, c: char) -> bool {
    exists|k: int| 0 <= k < s.len() && s[k] == c
}

/// Index of the first occurrence of `c` in `s` (meaningful only when
/// [`has_char`] holds).
pub open spec fn first_idx(s: Seq<char>, c: char) -> int
    decreases s.len(),
{
    if s.len() == 0 {
        0
    } else if s[0] == c {
        0
    } else {
        1 + first_idx(s.drop_first(), c)
    }
}

proof fn lemma_first_idx(s: Seq<char>, c: char)
    requires
        has_char(s, c),
    ensures
        0 <= first_idx(s, c) < s.len(),
        s[first_idx(s, c)] == c,
        forall|k: int| 0 <= k < first_idx(s, c) ==> s[k] != c,
    decreases s.len(),
{
    if s.len() == 0 {
    } else if s[0] == c {
    } else {
        let w = choose|k: int| 0 <= k < s.len() && s[k] == c;
        assert(s.drop_first()[w - 1] == c);
        lemma_first_idx(s.drop_first(), c);
        assert forall|k: int| 0 <= k < first_idx(s, c) implies s[k] != c by {
            if k > 0 {
                assert(s.drop_first()[k - 1] == s[k]);
            }
        }
    }
}

proof fn lemma_first_idx_is(s: Seq<char>, c: char, m: int)
    requires
        0 <= m <= s.len(),
        forall|k: int| 0 <= k < m ==> s[k] != c,
        m == s.len() || s[m] == c,
    ensures
        m < s.len() ==> has_char(s, c) && first_idx(s, c) == m,
        m == s.len() ==> !has_char(s, c),
    decreases s.len(),
{
    if m == s.len() {
    } else if s.len() == 0 || s[0] == c {
    } else {
        assert forall|k: int| 0 <= k < m - 1 implies s.drop_first()[k] != c by {
            assert(s.drop_first()[k] == s[k + 1]);
        }
        assert(s.drop_first()[m - 1] == s[m]);
        lemma_first_idx_is(s.drop_first(), c, m - 1);
    }
}

/// The pieces of `s` between occurrences of `c`, in order, empty pieces
/// kept: the meaning of splitting on a separator character.  Always at
/// least one piece.
pub open spec fn split_on(s: Seq<char>, c: char) -> Seq<Seq<char>>
    decreases s.len(),
    via split_on_decreases
{
    if !has_char(s, c) {
        seq![s]
    } else {
        seq![s.take(first_idx(s, c))] + split_on(s.skip(first_idx(s, c) + 1), c)
    }
}

#[via_fn]
proof fn split_on_decreases(s: Seq<char>, c: char) {
    if has_char(s, c) {
        lemma_first_idx(s, c);
    }
}

/// The result of splitting `s` at the first occurrence of `c` only: two
/// pieces when `c` occurs, one otherwise.
pub open spec fn split_first_on(s: Seq<char>, c: char) -> Seq<Seq<char>> {
    if !has_char(s, c) {
        seq![s]
    } else {
        seq![s.take(first_idx(s, c)), s.skip(first_idx(s, c) + 1)]
    }
}

/// Splits on every occurrence of `sep`, keeping empty pieces, exactly as
/// specified by [`split_on`].
pub fn split_char_vec(s: &str, sep: char) -> (r: Vec<String>)
    ensures
        r.deep_view() == split_on(s@, sep),
        r.len() >= 1,
{
    let n: usize = s.unicode_len();
    let mut r: Vec<String> = Vec::new();
    let mut start: usize = 0;
    let mut i: usize = 0;
    proof {
        assert(s@.skip(0) =~= s@);
        assert(r.deep_view() =~= Seq::<Seq<char>>::empty());
        assert(r.deep_view() + split_on(s@.skip(0), sep) =~= split_on(s@, sep));
    }
    while i < n
        invariant
            0 <= start <= i <= n,
            n == s@.len(),
            split_on(s@, sep) == r.deep_view() + split_on(s@.skip(start as int), sep),
            forall|k: int| start <= k < i ==> s@[k] != sep,
        decreases n - i,
    {
        let c = s.get_char(i);
        if c == sep {
            let ghost prev = r.deep_view();
            let piece = String::from_str(s.substring_char(start, i));
            r.push(piece);
            proof {
                let t = s@.skip(start as int);
                assert forall|k: int| 0 <= k < i - start implies t[k] != sep by {
                    assert(t[k] == s@[start + k]);
                }
                assert(t[i - start] == s@[i as int]);
                lemma_first_idx_is(t, sep, i - start);
                assert(t.take(i - start) =~= s@.subrange(start as int, i as int));
                assert(t.skip(i - start + 1) =~= s@.skip(i as int + 1));
                assert(r.deep_view() =~= prev + seq![s@.subrange(start as int, i as int)]);
            }
            i += 1;
            start = i;
        } else {
            i += 1;
        }
    }
    let ghost prev = r.deep_view();
    let last = String::from_str(s.substring_char(start, n));
    r.push(last);
    proof {
        let t = s@.skip(start as int);
        assert forall|k: int| 0 <= k < t.len() implies t[k] != sep by {
            assert(t[k] == s@[start + k]);
        }
        lemma_first_idx_is(t, sep, t.len() as int);
        assert(t =~= s@.subrange(start as int, n as int));
        assert(r.deep_view() =~= prev + seq![s@.subrange(start as int, n as int)]);
        assert(r.deep_view() =~= split_on(s@, sep));
    }
    r
}

/// Splits at the first occurrence of `sep` only, exactly as specified by
/// [`split_first_on`].
pub fn split_first_char_vec(s: &str, sep: char) -> (r: Vec<String>)
    ensures
        r.deep_view() == split_first_on(s@, sep),
        1 <= r.len() <= 2,
{
    let n: usize = s.unicode_len();
    let mut i: usize = 0;
    while i < n && s.get_char(i) != sep
        invariant
            0 <= i <= n,
            n == s@.len(),
            forall|k: int| 0 <= k < i ==> s@[k] != sep,
        decreases n - i,
    {
        i += 1;
    }
    let mut r: Vec<String> = Vec::new();
    if i == n {
        proof {
            lemma_first_idx_is(s@, sep, n as int);
        }
        r.push(String::from_str(s));
        proof {
            assert(r.deep_view() =~= seq![s@]);
        }
    } else {
        proof {
            lemma_first_idx_is(s@, sep, i as int);
        }
        let head = String::from_str(s.substring_char(0, i));
        let tail = String::from_str(s.substring_char(i + 1, n));
        r.push(head);
        r.push(tail);
        proof {
            assert(s@.take(i as int) =~= s@.subrange(0, i as int));
            assert(s@.skip(i as int + 1) =~= s@.subrange(i as int + 1, n as int));
            assert(r.deep_view() =~= seq![s@.take(i as int), s@.skip(i as int + 1)]);
        }
    }
    r
}

/// Length of the leading run of whitespace characters.
pub open spec fn ws_run(s: Seq<char>) -> int
    decreases s.len(),
{
    if s.len() == 0 || !is_ws_char(s[0]) {
        0
    } else {
        1 + ws_run(s.drop_first())
    }
}

/// Length of the trailing run of whitespace characters.
pub open spec fn ws_run_rev(s: Seq<char>) -> int
    decreases s.len(),
{
    if s.len() == 0 || !is_ws_char(s.last()) {
        0
    } else {
        1 + ws_run_rev(s.drop_last())
    }
}

proof fn lemma_ws_run_is(s: Seq<char>, m: int)
    requires
        0 <= m <= s.len(),
        forall|k: int| 0 <= k < m ==> is_ws_char(s[k]),
        m == s.len() || !is_ws_char(s[m]),
    ensures
        ws_run(s) == m,
    decreases s.len(),
{
    if s.len() == 0 || !is_ws_char(s[0]) {
    } else {
        assert forall|k: int| 0 <= k < m - 1 implies is_ws_char(s.drop_first()[k]) by {
            assert(s.drop_first()[k] == s[k + 1]);
        }
        if m < s.len() {
            assert(s.drop_first()[m - 1] == s[m]);
        }
        lemma_ws_run_is(s.drop_first(), m - 1);
    }
}

proof fn lemma_ws_run_rev_is(s: Seq<char>, m: int)
    requires
        0 <= m <= s.len(),
        forall|k: int| s.len() - m <= k < s.len() ==> is_ws_char(s[k]),
        m == s.len() || !is_ws_char(s[s.len() - m - 1]),
    ensures
        ws_run_rev(s) == m,
    decreases s.len(),
{
    if s.len() == 0 || !is_ws_char(s.last()) {
    } else {
        assert forall|k: int| s.drop_last().len() - (m - 1) <= k < s.drop_last().len()
            implies is_ws_char(s.drop_last()[k]) by {
            assert(s.drop_last()[k] == s[k]);
        }
        if m < s.len() {
            assert(s.drop_last()[s.len() - m - 1] == s[s.len() - m - 1]);
        }
        lemma_ws_run_rev_is(s.drop_last(), m - 1);
    }
}

/// `s` with leading and trailing whitespace removed.
pub open spec fn trim_spec(s: Seq<char>) -> Seq<char> {
    let t = s.skip(ws_run(s));
    t.take(t.len() - ws_run_rev(t))
}

/// Removes leading and trailing whitespace, exactly as specified by
/// [`trim_spec`].
pub fn trim_str(s: &str) -> (r: String)
    ensures
        r@ == trim_spec(s@),
{
    let n: usize = s.unicode_len();
    let mut a: usize = 0;
    while a < n && is_ws(s.get_char(a))
        invariant
            0 <= a <= n,
            n == s@.len(),
            forall|k: int| 0 <= k < a ==> is_ws_char(s@[k]),
        decreases n - a,
    {
        a += 1;
    }
    proof {
        lemma_ws_run_is(s@, a as int);
    }
    let mut b: usize = n;
    while b > a && is_ws(s.get_char(b - 1))
        invariant
            a <= b <= n,
            n == s@.len(),
            ws_run(s@) == a,
            forall|k: int| 0 <= k < a ==> is_ws_char(s@[k]),
            forall|k: int| b <= k < n ==> is_ws_char(s@[k]),
        decreases b,
    {
        b -= 1;
    }
    let r = String::from_str(s.substring_char(a, b));
    proof {
        let t = s@.skip(a as int);
        assert forall|k: int| t.len() - (n - b) <= k < t.len() implies is_ws_char(t[k]) by {
            assert(t[k] == s@[a + k]);
        }
        if b > a {
            assert(t[b - 1 - a] == s@[b - 1]);
        }
        lemma_ws_run_rev_is(t, n - b);
        assert(t.take(t.len() - (n - b)) =~= s@.subrange(a as int, b as int));
    }
    r
}

} // verus!

verus! {

/// Hexadecimal digit test.
pub open spec fn is_hex_digit(c: char) -> bool {
    is_digit(c) || ('a' <= c && c <= 'f') || ('A' <= c && c <= 'F')
}

/// Numeric value of one hexadecimal digit.
pub open spec fn hex_digit_val(c: char) -> int {
    if is_digit(c) {
        c as int - '0' as int
    } else if 'a' <= c && c <= 'f' {
        c as int - 'a' as int + 10
    } else {
        c as int - 'A' as int + 10
    }
}

/// Whether every character of `s` is a hexadecimal digit.
pub open spec fn all_hex(s: Seq<char>) -> bool {
    forall|k: int| 0 <= k < s.len() ==> is_hex_digit(s[k])
}

/// Value of a hexadecimal digit string read in base sixteen.
pub open spec fn hex_val(s: Seq<char>) -> int
    decreases s.len(),
{
    if s.len() == 0 {
        0
    } else {
        hex_val(s.drop_last()) * 16 + hex_digit_val(s.last())
    }
}

/// Value bound of a short hexadecimal digit string: at most four digits
/// always fit in sixteen bits.
pub proof fn lemma_hex_val_bound(s: Seq<char>)
    requires
        all_hex(s),
        s.len() <= 4,
    ensures
        0 <= hex_val(s) <= 65535,
    decreases s.len(),
{
    if s.len() > 0 {
        let t = s.drop_last();
        lemma_hex_val_bound(t);
        assert(0 <= hex_digit_val(s.last()) <= 15);
        if s.len() == 1 {
            assert(hex_val(t) == 0);
        } else if s.len() == 2 {
            assert(hex_val(t.drop_last()) * 16 + hex_digit_val(t.last()) <= 15);
        } else if s.len() == 3 {
            lemma_hex_val_small(t, 2);
        } else {
            lemma_hex_val_small(t, 3);
        }
    }
}

proof fn lemma_hex_val_small(s: Seq<char>, m: int)
    requires
        all_hex(s),
        s.len() <= m,
        0 <= m <= 3,
    ensures
        hex_val(s) < if m == 0 {
            1int
        } else if m == 1 {
            16int
        } else if m == 2 {
            256int
        } else {
            4096int
        },
        hex_val(s) >= 0,
    decreases m,
{
    if s.len() > 0 {
        lemma_hex_val_small(s.drop_last(), m - 1);
        assert(0 <= hex_digit_val(s.last()) <= 15);
    }
}

/// Value bound of a short decimal digit string: at most three digits stay
/// below one thousand.
pub proof fn lemma_dec_val_small(s: Seq<char>)
    requires
        all_digits(s),
        s.len() <= 3,
    ensures
        0 <= dec_val(s) <= 999,
    decreases s.len(),
{
    if s.len() > 0 {
        let t = s.drop_last();
        lemma_dec_val_small(t);
        assert(0 <= digit_val(s.last()) <= 9);
        if s.len() == 3 {
            assert(dec_val(t.drop_last()) <= 9) by {
                if t.len() > 0 {
                    assert(t.drop_last().len() <= 1);
                    if t.drop_last().len() == 1 {
                        assert(dec_val(t.drop_last().drop_last()) == 0);
                        assert(0 <= digit_val(t.drop_last().last()) <= 9);
                    }
                }
            }
            assert(dec_val(t) <= 99);
        } else if s.len() == 2 {
            assert(dec_val(t.drop_last()) == 0);
            assert(dec_val(t) <= 9);
        } else {
            assert(dec_val(t) == 0);
        }
    }
}

/// Whether `c` occurs in the string, exactly as specified by [`has_char`].
pub fn str_contains_char(s: &str, c: char) -> (r: bool)
    ensures
        r == has_char(s@, c),
{
    let n: usize = s.unicode_len();
    let mut i: usize = 0;
    while i < n
        invariant
            0 <= i <= n,
            n == s@.len(),
            forall|k: int| 0 <= k < i ==> s@[k] != c,
        decreases n - i,
    {
        if s.get_char(i) == c {
            return true;
        }
        i += 1;
    }
    false
}

} // verus!

verus! {

/// Whether `s` holds any whitespace character.
pub open spec fn has_ws(s: Seq<char>) -> bool {
    exists|k: int| 0 <= k < s.len() && is_ws_char(#[trigger] s[k])
}

/// Index of the first whitespace character (meaningful only under
/// [`has_ws`]).
pub open spec fn first_ws(s: Seq<char>) -> int
    decreases s.len(),
{
    if s.len() == 0 {
        0
    } else if is_ws_char(s[0]) {
        0
    } else {
        1 + first_ws(s.drop_first())
    }
}

proof fn lemma_first_ws_is(s: Seq<char>, m: int)
    requires
        0 <= m <= s.len(),
        forall|k: int| 0 <= k < m ==> !is_ws_char(#[trigger] s[k]),
        m == s.len() || is_ws_char(s[m]),
    ensures
        m < s.len() ==> has_ws(s) && first_ws(s) == m,
        m == s.len() ==> !has_ws(s),
    decreases s.len(),
{
    if m == s.len() {
    } else if s.len() == 0 || is_ws_char(s[0]) {
    } else {
        assert forall|k: int| 0 <= k < m - 1 implies !is_ws_char(#[trigger] s.drop_first()[k]) by {
            assert(s.drop_first()[k] == s[k + 1]);
        }
        assert(s.drop_first()[m - 1] == s[m]);
        lemma_first_ws_is(s.drop_first(), m - 1);
    }
}

/// The text before the first whitespace run, and the text after it.
/// Meaningful only under [`has_ws`].
pub open spec fn split_ws_once(s: Seq<char>) -> (Seq<char>, Seq<char>) {
    let i = first_ws(s);
    (s.take(i), s.skip(i + ws_run(s.skip(i))))
}

/// Splits at the first whitespace run, exactly as specified by
/// [`split_ws_once`]; `None` exactly when the string holds no whitespace.
pub fn split_first_ws_run(s: &str) -> (r: Option<(String, String)>)
    ensures
        r is Some <==> has_ws(s@),
        r matches Some(p) ==> p.0@ == split_ws_once(s@).0 && p.1@ == split_ws_once(s@).1,
{
    let n: usize = s.unicode_len();
    let mut i: usize = 0;
    while i < n && !is_ws(s.get_char(i))
        invariant
            0 <= i <= n,
            n == s@.len(),
            forall|k: int| 0 <= k < i ==> !is_ws_char(#[trigger] s@[k]),
        decreases n - i,
    {
        i += 1;
    }
    proof {
        lemma_first_ws_is(s@, i as int);
    }
    if i == n {
        return None;
    }
    let mut j: usize = i;
    while j < n && is_ws(s.get_char(j))
        invariant
            i <= j <= n,
            n == s@.len(),
            forall|k: int| i <= k < j ==> is_ws_char(#[trigger] s@[k]),
        decreases n - j,
    {
        j += 1;
    }
    let head = String::from_str(s.substring_char(0, i));
    let tail = String::from_str(s.substring_char(j, n));
    proof {
        let t = s@.skip(i as int);
        assert forall|k: int| 0 <= k < j - i implies is_ws_char(#[trigger] t[k]) by {
            assert(t[k] == s@[i + k]);
        }
        if j < n {
            assert(t[j - i] == s@[j as int]);
        }
        lemma_ws_run_is(t, j - i);
        assert(s@.take(i as int) =~= s@.subrange(0, i as int));
        assert(t.skip(j - i) =~= s@.subrange(j as int, n as int));
    }
    Some((head, tail))
}

} // verus!
