//! Text handling over character sequences: searching, removing and
//! splitting on patterns, decimal parsing and decimal formatting.
use vstd::prelude::*;

verus! {

// ---------------------------------------------------------------------------
// Specifications
// ---------------------------------------------------------------------------

/// `p` occurs in `s` starting at position `i`.
pub open spec fn occurs_at(s: Seq<char>, p: Seq<char>, i: int) -> bool {
    0 <= i && i + p.len() <= s.len() && s.subrange(i, i + p.len()) == p
}

/// `p` occurs somewhere in `s` (the empty pattern occurs everywhere).
pub open spec fn contains(s: Seq<char>, p: Seq<char>) -> bool {
    exists|i: int| occurs_at(s, p, i)
}

/// The first position at or after `i` where `p` occurs in `s`.
pub open spec fn find_from(s: Seq<char>, p: Seq<char>, i: int) -> Option<int>
    decreases s.len() + 1 - i,
{
    if i < 0 || i + p.len() > s.len() {
        None
    } else if s.subrange(i, i + p.len()) == p {
        Some(i)
    } else {
        find_from(s, p, i + 1)
    }
}

/// The first position where `p` occurs in `s`.
pub open spec fn find(s: Seq<char>, p: Seq<char>) -> Option<int> {
    find_from(s, p, 0)
}

/// `s` with every occurrence of the non-empty pattern `p` removed, scanning
/// from the left and never letting two removed occurrences overlap.
pub open spec fn remove_all(s: Seq<char>, p: Seq<char>) -> Seq<char>
    decreases s.len(),
{
    if p.len() == 0 || s.len() < p.len() {
        s
    } else if s.take(p.len() as int) == p {
        remove_all(s.skip(p.len() as int), p)
    } else {
        seq![s[0]] + remove_all(s.skip(1), p)
    }
}

/// The piece of `s` that follows the first occurrence of `p`, up to the next
/// occurrence of `p` or the end of `s`; `None` when `p` does not occur.
pub open spec fn piece_after(s: Seq<char>, p: Seq<char>) -> Option<Seq<char>> {
    match find(s, p) {
        None => None,
        Some(i) => {
            let rest = s.skip(i + p.len());
            match find(rest, p) {
                Some(j) => Some(rest.take(j)),
                None => Some(rest),
            }
        },
    }
}

/// Field number `k` of `s` split at the character `sep`; `None` when `s`
/// has fewer than `k + 1` fields.
pub open spec fn field(s: Seq<char>, sep: char, k: nat) -> Option<Seq<char>>
    decreases k,
{
    match find(s, seq![sep]) {
        None => if k == 0 {
            Some(s)
        } else {
            None
        },
        Some(j) => if k == 0 {
            Some(s.take(j))
        } else {
            field(s.skip(j + 1), sep, (k - 1) as nat)
        },
    }
}

pub open spec fn opt_string_view(o: Option<String>) -> Option<Seq<char>> {
    match o {
        Some(s) => Some(s@),
        None => None,
    }
}

pub open spec fn is_digit(c: char) -> bool {
    '0' <= c && c <= '9'
}

pub open spec fn all_digits(s: Seq<char>) -> bool {
    forall|i: int| 0 <= i < s.len() ==> is_digit(#[trigger] s[i])
}

/// The number that the decimal digits `s` spell.
pub open spec fn digits_value(s: Seq<char>) -> int
    decreases s.len(),
{
    if s.len() == 0 {
        0
    } else {
        digits_value(s.drop_last()) * 10 + (s.last() as int - '0' as int)
    }
}

/// The digits of `s` read as a number of at most `limit`: `s` is non-empty,
/// holds decimal digits only and spells a number no greater than `limit`.
pub open spec fn digits_within(s: Seq<char>, limit: int) -> Option<int> {
    if s.len() > 0 && all_digits(s) && digits_value(s) <= limit {
        Some(digits_value(s))
    } else {
        None
    }
}

/// How an unsigned integer type with largest value `max` reads `s`: an
/// optional `+` sign followed by at least one decimal digit, no overflow.
pub open spec fn parse_unsigned(s: Seq<char>, max: int) -> Option<int> {
    if s.len() > 0 && s[0] == '+' {
        digits_within(s.skip(1), max)
    } else {
        digits_within(s, max)
    }
}

/// How a signed integer type with range `min..=max` reads `s`: an optional
/// `+` or `-` sign followed by at least one decimal digit, no overflow.
pub open spec fn parse_signed(s: Seq<char>, min: int, max: int) -> Option<int> {
    if s.len() > 0 && s[0] == '-' {
        match digits_within(s.skip(1), -min) {
            Some(v) => Some(-v),
            None => None,
        }
    } else {
        parse_unsigned(s, max)
    }
}

pub open spec fn spec_parse_u16(s: Seq<char>) -> Option<u16> {
    match parse_unsigned(s, 0xffff) {
        Some(v) => Some(v as u16),
        None => None,
    }
}

pub open spec fn spec_parse_i64(s: Seq<char>) -> Option<i64> {
    match parse_signed(s, i64::MIN as int, i64::MAX as int) {
        Some(v) => Some(v as i64),
        None => None,
    }
}

pub open spec fn digit_char(d: int) -> char {
    ('0' as int + d) as char
}

/// The decimal representation of `n`, without leading zeros.
pub open spec fn decimal(n: nat) -> Seq<char>
    decreases n,
{
    if n < 10 {
        seq![digit_char(n as int)]
    } else {
        decimal(n / 10) + seq![digit_char((n % 10) as int)]
    }
}

// ---------------------------------------------------------------------------
// Lemmas
// ---------------------------------------------------------------------------

/// `find_from` returns the first occurrence at or after `i`, and `None` only
/// when there is none.
pub proof fn lemma_find_from(s: Seq<char>, p: Seq<char>, i: int)
    requires
        0 <= i,
    ensures
        match find_from(s, p, i) {
            Some(j) => i <= j && occurs_at(s, p, j) && forall|k: int|
                i <= k < j ==> !occurs_at(s, p, k),
            None => forall|k: int| i <= k ==> !occurs_at(s, p, k),
        },
    decreases s.len() + 1 - i,
{
    if i + p.len() > s.len() {
    } else if s.subrange(i, i + p.len()) == p {
    } else {
        lemma_find_from(s, p, i + 1);
    }
}

/// `find` succeeds exactly when the pattern occurs.
pub proof fn lemma_find_contains(s: Seq<char>, p: Seq<char>)
    ensures
        find(s, p) is Some <==> contains(s, p),
        find(s, p) matches Some(j) ==> occurs_at(s, p, j),
{
    lemma_find_from(s, p, 0);
    if find(s, p) is None {
        assert forall|i: int| !occurs_at(s, p, i) by {
            if 0 <= i {
            }
        }
    }
}

// ---------------------------------------------------------------------------
// Executable functions
// ---------------------------------------------------------------------------

/// The characters of `s`, in order.
pub fn chars_of(s: &str) -> (v: Vec<char>)
    ensures
        v@ == s@,
{
    let mut v: Vec<char> = Vec::new();
    for c in it: s.chars()
        invariant
            v@ == it.seq().take(it.index() as int),
            it.seq() == s@,
    {
        v.push(c);
    }
    v
}

/// Builds a string from its characters (std's `FromIterator<char>` for
/// `String`, which appends the characters in order).
#[verifier::external_body]
pub(crate) fn string_from_chars(cs: &[char]) -> (s: String)
    ensures
        s@ == cs@,
{
    String::from_iter(cs)
}

/// Whether `p` occurs in `s` at position `i`.
pub fn matches_at(s: &[char], p: &[char], i: usize) -> (r: bool)
    ensures
        r == occurs_at(s@, p@, i as int),
{
    if i > s.len() || p.len() > s.len() - i {
        return false;
    }
    let mut k: usize = 0;
    while k < p.len()
        invariant
            i + p.len() <= s.len(),
            k <= p.len(),
            forall|m: int| 0 <= m < k ==> s@[i + m] == p@[m],
        decreases p.len() - k,
    {
        if s[i + k] != p[k] {
            assert(s@.subrange(i as int, i + p.len())[k as int] != p@[k as int]);
            return false;
        }
        k = k + 1;
    }
    assert(s@.subrange(i as int, i + p.len()) =~= p@);
    true
}

/// The first position at or after `from` where `p` occurs in `s`.
pub fn find_from_exec(s: &[char], p: &[char], from: usize) -> (r: Option<usize>)
    ensures
        match r {
            Some(j) => find_from(s@, p@, from as int) == Some(j as int),
            None => find_from(s@, p@, from as int) is None,
        },
{
    if from > s.len() || p.len() > s.len() - from {
        return None;
    }
    if p.len() == 0 {
        assert(s@.subrange(from as int, from as int) =~= p@);
        return Some(from);
    }
    let mut i: usize = from;
    while i <= s.len() - p.len()
        invariant
            from <= i,
            0 < p.len() <= s.len(),
            i <= s.len() - p.len() + 1,
            find_from(s@, p@, from as int) == find_from(s@, p@, i as int),
        decreases s.len() - i,
    {
        if matches_at(s, p, i) {
            return Some(i);
        }
        i = i + 1;
    }
    None
}

/// The first position where `p` occurs in `s`.
pub fn find_exec(s: &[char], p: &[char]) -> (r: Option<usize>)
    ensures
        match r {
            Some(j) => find(s@, p@) == Some(j as int),
            None => find(s@, p@) is None,
        },
{
    find_from_exec(s, p, 0)
}

/// Whether `p` occurs in `s`.
pub fn contains_exec(s: &[char], p: &[char]) -> (r: bool)
    ensures
        r == contains(s@, p@),
{
    proof {
        lemma_find_contains(s@, p@);
    }
    find_exec(s, p).is_some()
}

/// `s` with every occurrence of the non-empty pattern `p` removed.
pub fn remove_all_exec(s: &[char], p: &[char]) -> (r: Vec<char>)
    ensures
        r@ == remove_all(s@, p@),
{
    let mut r: Vec<char> = Vec::new();
    if p.len() == 0 {
        let mut k: usize = 0;
        while k < s.len()
            invariant
                k <= s.len(),
                r@ == s@.take(k as int),
            decreases s.len() - k,
        {
            r.push(s[k]);
            k = k + 1;
            assert(r@ =~= s@.take(k as int));
        }
        assert(s@.take(s.len() as int) =~= s@);
        return r;
    }
    let mut i: usize = 0;
    assert(s@.skip(0) =~= s@);
    while i < s.len()
        invariant
            p.len() > 0,
            i <= s.len(),
            remove_all(s@, p@) == r@ + remove_all(s@.skip(i as int), p@),
        decreases s.len() - i,
    {
        let ghost rest = s@.skip(i as int);
        if matches_at(s, p, i) {
            assert(rest.take(p.len() as int) =~= s@.subrange(i as int, i + p.len()));
            assert(rest.skip(p.len() as int) =~= s@.skip(i + p.len()));
            i = i + p.len();
        } else {
            proof {
                assert(rest.skip(1) =~= s@.skip(i + 1));
                if rest.len() >= p.len() {
                    assert(rest.take(p.len() as int) =~= s@.subrange(i as int, i + p.len()));
                } else {
                    assert(remove_all(s@.skip(i + 1), p@) == s@.skip(i + 1));
                    assert(rest =~= seq![s@[i as int]] + s@.skip(i + 1));
                }
            }
            r.push(s[i]);
            assert(r@ + remove_all(s@.skip(i + 1), p@) =~= (r@.drop_last() + seq![s@[i as int]])
                + remove_all(s@.skip(i + 1), p@));
            i = i + 1;
        }
    }
    assert(s@.skip(s.len() as int) =~= Seq::<char>::empty());
    assert(r@ + Seq::<char>::empty() =~= r@);
    r
}

/// Whether two character sequences are equal.
pub fn chars_equal(a: &[char], b: &[char]) -> (r: bool)
    ensures
        r == (a@ == b@),
{
    if a.len() != b.len() {
        return false;
    }
    let mut i: usize = 0;
    while i < a.len()
        invariant
            a@.len() == b@.len(),
            i <= a@.len(),
            forall|k: int| 0 <= k < i ==> a@[k] == b@[k],
        decreases a.len() - i,
    {
        if a[i] != b[i] {
            return false;
        }
        i = i + 1;
    }
    assert(a@ =~= b@);
    true
}

/// Copies `s[from..to]`.
pub fn slice_chars(s: &[char], from: usize, to: usize) -> (r: Vec<char>)
    requires
        from <= to <= s.len(),
    ensures
        r@ == s@.subrange(from as int, to as int),
{
    let mut r: Vec<char> = Vec::new();
    let mut k: usize = from;
    while k < to
        invariant
            from <= k <= to <= s.len(),
            r@ == s@.subrange(from as int, k as int),
        decreases to - k,
    {
        r.push(s[k]);
        k = k + 1;
        assert(r@ =~= s@.subrange(from as int, k as int));
    }
    r
}

/// The piece of `s` that follows the first occurrence of the non-empty
/// pattern `p`, up to its next occurrence or the end.
pub fn piece_after_exec(s: &[char], p: &[char]) -> (r: Option<Vec<char>>)
    ensures
        match r {
            Some(v) => piece_after(s@, p@) == Some(v@),
            None => piece_after(s@, p@) is None,
        },
{
    match find_exec(s, p) {
        None => None,
        Some(i) => {
            proof {
                lemma_find_from(s@, p@, 0);
                assert(occurs_at(s@, p@, i as int));
                assert(i + p@.len() <= s@.len());
                assert(p@.len() == p.len());
            }
            let n = s.len();
            let start = i + p.len();
            let rest = slice_chars(s, start, s.len());
            assert(rest@ =~= s@.skip(start as int));
            match find_exec(rest.as_slice(), p) {
                Some(j) => {
                    proof {
                        lemma_find_from(rest@, p@, 0);
                    }
                    let piece = slice_chars(rest.as_slice(), 0, j);
                    assert(piece@ =~= rest@.take(j as int));
                    Some(piece)
                },
                None => Some(rest),
            }
        },
    }
}

/// Field number `k` of `s` split at `sep`.
pub fn field_exec(s: &[char], sep: char, k: usize) -> (r: Option<Vec<char>>)
    ensures
        match r {
            Some(v) => field(s@, sep, k as nat) == Some(v@),
            None => field(s@, sep, k as nat) is None,
        },
{
    let pat: Vec<char> = vec![sep];
    assert(pat@ =~= seq![sep]);
    let mut cur: Vec<char> = slice_chars(s, 0, s.len());
    assert(cur@ =~= s@);
    let mut left: usize = k;
    while left > 0
        invariant
            pat@ == seq![sep],
            left <= k,
            field(s@, sep, k as nat) == field(cur@, sep, left as nat),
        decreases left,
    {
        match find_exec(cur.as_slice(), pat.as_slice()) {
            None => {
                return None;
            },
            Some(j) => {
                proof {
                    lemma_find_from(cur@, pat@, 0);
                    assert(occurs_at(cur@, pat@, j as int));
                    assert(j + pat@.len() <= cur@.len());
                    assert(pat@.len() == 1);
                }
                let n = cur.len();
                let next = slice_chars(cur.as_slice(), j + 1, n);
                assert(next@ =~= cur@.skip(j + 1));
                cur = next;
                left = left - 1;
            },
        }
    }
    match find_exec(cur.as_slice(), pat.as_slice()) {
        None => Some(cur),
        Some(j) => {
            proof {
                lemma_find_from(cur@, pat@, 0);
            }
            let head = slice_chars(cur.as_slice(), 0, j);
            assert(head@ =~= cur@.take(j as int));
            Some(head)
        },
    }
}

/// Reads the decimal digits `s` as a number no greater than `limit`.
pub fn digits_within_exec(s: &[char], limit: u64) -> (r: Option<u64>)
    ensures
        match r {
            Some(v) => digits_within(s@, limit as int) == Some(v as int),
            None => digits_within(s@, limit as int) is None,
        },
{
    if s.len() == 0 {
        return None;
    }
    let mut value: u64 = 0;
    let mut over: bool = false;
    let mut i: usize = 0;
    assert(s@.take(0) =~= Seq::<char>::empty());
    while i < s.len()
        invariant
            i <= s.len(),
            all_digits(s@.take(i as int)),
            !over ==> value as int == digits_value(s@.take(i as int)) && value <= limit,
            over ==> digits_value(s@.take(i as int)) > limit,
            digits_value(s@.take(i as int)) >= 0,
        decreases s.len() - i,
    {
        let c = s[i];
        if !('0' <= c && c <= '9') {
            assert(!all_digits(s@)) by {
                assert(!is_digit(s@[i as int]));
            }
            return None;
        }
        let d: u64 = (c as u32 - '0' as u32) as u64;
        let ghost prev = s@.take(i as int);
        assert(s@.take(i + 1).drop_last() =~= prev);
        assert(s@.take(i + 1).last() == c);
        assert(digits_value(s@.take(i + 1)) == digits_value(prev) * 10 + d);
        if !over {
            if d > limit || value > (limit - d) / 10 {
                over = true;
                assert(digits_value(s@.take(i + 1)) > limit) by (nonlinear_arith)
                    requires
                        d > limit || value > (limit - d) / 10,
                        value >= 0,
                        digits_value(s@.take(i + 1)) == value * 10 + d,
                ;
            } else {
                assert(value * 10 + d <= limit) by (nonlinear_arith)
                    requires
                        value <= (limit - d) / 10,
                        d <= 9,
                        limit >= d,
                ;
                value = value * 10 + d;
            }
        } else {
            assert(digits_value(s@.take(i + 1)) > limit) by (nonlinear_arith)
                requires
                    digits_value(prev) > limit,
                    digits_value(s@.take(i + 1)) == digits_value(prev) * 10 + d,
                    d <= 9,
            ;
        }
        i = i + 1;
        assert forall|m: int| 0 <= m < i implies is_digit(#[trigger] s@.take(i as int)[m]) by {
            if m < i - 1 {
                assert(s@.take(i as int)[m] == s@.take(i - 1)[m]);
            }
        }
    }
    assert(s@.take(s.len() as int) =~= s@);
    if over {
        None
    } else {
        Some(value)
    }
}

/// `str::parse::<u16>` on the characters `s`.
pub fn parse_u16(s: &[char]) -> (r: Option<u16>)
    ensures
        r == spec_parse_u16(s@),
{
    let body: Vec<char> = if s.len() > 0 && s[0] == '+' {
        slice_chars(s, 1, s.len())
    } else {
        slice_chars(s, 0, s.len())
    };
    assert(s.len() > 0 && s@[0] == '+' ==> body@ =~= s@.skip(1));
    assert(!(s.len() > 0 && s@[0] == '+') ==> body@ =~= s@);
    match digits_within_exec(body.as_slice(), 0xffff) {
        Some(v) => Some(v as u16),
        None => None,
    }
}

/// `str::parse::<i64>` on the characters `s`.
pub fn parse_i64(s: &[char]) -> (r: Option<i64>)
    ensures
        r == spec_parse_i64(s@),
{
    if s.len() > 0 && s[0] == '-' {
        let body = slice_chars(s, 1, s.len());
        assert(body@ =~= s@.skip(1));
        match digits_within_exec(body.as_slice(), 0x8000_0000_0000_0000) {
            Some(v) => {
                if v == 0x8000_0000_0000_0000 {
                    Some(i64::MIN)
                } else {
                    Some(-(v as i64))
                }
            },
            None => None,
        }
    } else {
        let body: Vec<char> = if s.len() > 0 && s[0] == '+' {
            slice_chars(s, 1, s.len())
        } else {
            slice_chars(s, 0, s.len())
        };
        assert(s.len() > 0 && s@[0] == '+' ==> body@ =~= s@.skip(1));
        assert(!(s.len() > 0 && s@[0] == '+') ==> body@ =~= s@);
        match digits_within_exec(body.as_slice(), 0x7fff_ffff_ffff_ffff) {
            Some(v) => Some(v as i64),
            None => None,
        }
    }
}

/// The decimal digits of a byte, appended to `out`.
pub fn push_decimal(out: &mut Vec<char>, b: u8)
    ensures
        final(out)@ == old(out)@ + decimal(b as nat),
{
    let d0 = ((b % 10) + 48) as char;
    if b < 10 {
        assert(decimal(b as nat) == seq![digit_char(b as int)]);
        out.push(d0);
    } else if b < 100 {
        let d1 = ((b / 10) + 48) as char;
        assert(decimal((b / 10) as nat) == seq![digit_char((b / 10) as int)]);
        assert(decimal(b as nat) =~= seq![d1, d0]);
        out.push(d1);
        out.push(d0);
    } else {
        let d1 = (((b / 10) % 10) + 48) as char;
        let d2 = ((b / 100) + 48) as char;
        assert(decimal((b / 100) as nat) == seq![digit_char((b / 100) as int)]);
        assert(decimal((b / 10) as nat) =~= seq![d2, d1]);
        assert(decimal(b as nat) =~= seq![d2, d1, d0]);
        out.push(d2);
        out.push(d1);
        out.push(d0);
    }
}

} // verus!
