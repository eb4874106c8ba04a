use vstd::prelude::*;
use vstd::string::StrSliceExecFns;

verus! {

/// ASCII whitespace, as the line protocol trims it.
pub open spec fn is_space_char(c: char) -> bool {
    c == ' ' || c == '\t' || c == '\r' || c == '\n'
}

/// `s` without leading whitespace.
pub open spec fn trim_start_spec(s: Seq<char>) -> Seq<char>
    decreases s.len(),
{
    if s.len() == 0 {
        s
    } else if is_space_char(s[0]) {
        trim_start_spec(s.drop_first())
    } else {
        s
    }
}

/// `s` without trailing whitespace.
pub open spec fn trim_end_spec(s: Seq<char>) -> Seq<char>
    decreases s.len(),
{
    if s.len() == 0 {
        s
    } else if is_space_char(s.last()) {
        trim_end_spec(s.drop_last())
    } else {
        s
    }
}

/// `s` without leading and trailing whitespace.
pub open spec fn trim_spec(s: Seq<char>) -> Seq<char> {
    trim_end_spec(trim_start_spec(s))
}

proof fn lemma_trim_start(s: Seq<char>, i: int)
    requires
        0 <= i <= s.len(),
        forall|j: int| 0 <= j < i ==> is_space_char(#[trigger] s[j]),
        i == s.len() || !is_space_char(s[i]),
    ensures
        trim_start_spec(s) == s.subrange(i, s.len() as int),
    decreases i,
{
    if i == 0 {
        assert(s.subrange(0, s.len() as int) =~= s);
    } else {
        assert(is_space_char(s[0]));
        let t = s.drop_first();
        lemma_trim_start(t, i - 1);
        assert(t.subrange(i - 1, t.len() as int) =~= s.subrange(i, s.len() as int));
    }
}

proof fn lemma_trim_end(u: Seq<char>, e: int)
    requires
        0 <= e <= u.len(),
        forall|j: int| e <= j < u.len() ==> is_space_char(#[trigger] u[j]),
        e == 0 || !is_space_char(u[e - 1]),
    ensures
        trim_end_spec(u) == u.subrange(0, e),
    decreases u.len() - e,
{
    if e == u.len() {
        assert(u.subrange(0, u.len() as int) =~= u);
    } else {
        assert(is_space_char(u.last()));
        let t = u.drop_last();
        lemma_trim_end(t, e);
        assert(t.subrange(0, e) =~= u.subrange(0, e));
    }
}

fn is_space(c: char) -> (r: bool)
    ensures
        r == is_space_char(c),
{
    c == ' ' || c == '\t' || c == '\r' || c == '\n'
}

/// `s` with leading and trailing whitespace removed.
pub fn trim<'a>(s: &'a str) -> (t: &'a str)
    ensures
        t@ == trim_spec(s@),
{
    let n = s.unicode_len();
    let mut start: usize = 0;
    while start < n && is_space(s.get_char(start))
        invariant
            n == s@.len(),
            start <= n,
            forall|j: int| 0 <= j < start ==> is_space_char(#[trigger] s@[j]),
        decreases n - start,
    {
        start = start + 1;
    }
    let mut end: usize = n;
    while end > start && is_space(s.get_char(end - 1))
        invariant
            n == s@.len(),
            start <= end <= n,
            forall|j: int| end <= j < n ==> is_space_char(#[trigger] s@[j]),
        decreases end,
    {
        end = end - 1;
    }
    let t = s.substring_char(start, end);
    proof {
        lemma_trim_start(s@, start as int);
        let u = s@.subrange(start as int, s@.len() as int);
        lemma_trim_end(u, end - start as int);
        assert(u.subrange(0, end - start as int) =~= s@.subrange(start as int, end as int));
    }
    t
}

/// Exact equality of two strings.
pub fn str_eq(a: &str, b: &str) -> (r: bool)
    ensures
        r == (a@ == b@),
{
    let na = a.unicode_len();
    let nb = b.unicode_len();
    if na != nb {
        return false;
    }
    let mut i: usize = 0;
    while i < na
        invariant
            na == a@.len(),
            na == b@.len(),
            i <= na,
            forall|j: int| 0 <= j < i ==> a@[j] == b@[j],
        decreases na - i,
    {
        if a.get_char(i) != b.get_char(i) {
            return false;
        }
        i = i + 1;
    }
    proof {
        assert(a@ =~= b@);
    }
    true
}

/// The code point of `c`, with an ASCII upper-case letter folded to its
/// lower-case counterpart.
pub open spec fn fold_code(c: char) -> int {
    if 65 <= c as int && c as int <= 90 {
        c as int + 32
    } else {
        c as int
    }
}

/// Equality of ASCII keywords up to letter case.
pub open spec fn str_eq_fold(a: Seq<char>, b: Seq<char>) -> bool {
    a.len() == b.len() && forall|i: int| 0 <= i < a.len() ==> fold_code(a[i]) == fold_code(b[i])
}

fn fold_char(c: char) -> (x: u32)
    ensures
        x as int == fold_code(c),
{
    let v = c as u32;
    if 65 <= v && v <= 90 {
        v + 32
    } else {
        v
    }
}

/// Whether two strings agree as case-insensitive ASCII keywords.
pub fn keyword_eq(a: &str, b: &str) -> (r: bool)
    ensures
        r == str_eq_fold(a@, b@),
{
    let na = a.unicode_len();
    let nb = b.unicode_len();
    if na != nb {
        return false;
    }
    let mut i: usize = 0;
    while i < na
        invariant
            na == a@.len(),
            na == b@.len(),
            i <= na,
            forall|j: int| 0 <= j < i ==> fold_code(a@[j]) == fold_code(b@[j]),
        decreases na - i,
    {
        if fold_char(a.get_char(i)) != fold_char(b.get_char(i)) {
            return false;
        }
        i = i + 1;
    }
    true
}

/// The position of the first occurrence of `c` in `s`.
pub open spec fn first_at(s: Seq<char>, c: char) -> Option<int>
    decreases s.len(),
{
    if s.len() == 0 {
        None
    } else if s[0] == c {
        Some(0)
    } else {
        match first_at(s.drop_first(), c) {
            Some(i) => Some(i + 1),
            None => None,
        }
    }
}

proof fn lemma_first_at(s: Seq<char>, c: char, i: int)
    requires
        0 <= i <= s.len(),
        forall|j: int| 0 <= j < i ==> (#[trigger] s[j]) != c,
        i == s.len() || s[i] == c,
    ensures
        first_at(s, c) == if i == s.len() {
            Option::<int>::None
        } else {
            Option::Some(i)
        },
    decreases i,
{
    if i == 0 {
    } else {
        let t = s.drop_first();
        lemma_first_at(t, c, i - 1);
    }
}

/// The position of the first occurrence of `c` in `s`, if any.
pub fn find_char(s: &str, c: char) -> (r: Option<usize>)
    ensures
        match r {
            Option::None => first_at(s@, c) is None,
            Option::Some(i) => i < s@.len() && first_at(s@, c) == Option::Some(i as int),
        },
{
    let n = s.unicode_len();
    let mut i: usize = 0;
    while i < n
        invariant
            n == s@.len(),
            i <= n,
            forall|j: int| 0 <= j < i ==> (#[trigger] s@[j]) != c,
        decreases n - i,
    {
        if s.get_char(i) == c {
            proof {
                lemma_first_at(s@, c, i as int);
            }
            return Some(i);
        }
        i = i + 1;
    }
    proof {
        lemma_first_at(s@, c, n as int);
    }
    None
}

/// The numeric value of a decimal digit character; 10 stands for "not a
/// digit".
pub open spec fn digit_val(c: char) -> int {
    if 48 <= c as int && c as int <= 57 {
        c as int - 48
    } else {
        10
    }
}

/// Every character of `s` is a decimal digit.
pub open spec fn all_digits(s: Seq<char>) -> bool {
    forall|i: int| 0 <= i < s.len() ==> digit_val(#[trigger] s[i]) < 10
}

/// The value of a decimal digit string.
pub open spec fn digits_val(s: Seq<char>) -> int
    decreases s.len(),
{
    if s.len() == 0 {
        0
    } else {
        digits_val(s.drop_last()) * 10 + digit_val(s.last())
    }
}

proof fn lemma_digits_val_nonneg(s: Seq<char>)
    ensures
        digits_val(s) >= 0,
    decreases s.len(),
{
    if s.len() > 0 {
        lemma_digits_val_nonneg(s.drop_last());
    }
}

/// The value of a prefix never exceeds the value of the whole digit string.
proof fn lemma_digits_val_prefix(s: Seq<char>, i: int)
    requires
        0 <= i <= s.len(),
    ensures
        digits_val(s.subrange(0, i)) <= digits_val(s),
    decreases s.len() - i,
{
    if i == s.len() {
        assert(s.subrange(0, s.len() as int) =~= s);
    } else {
        lemma_digits_val_prefix(s, i + 1);
        let shorter = s.subrange(0, i);
        let longer = s.subrange(0, i + 1);
        assert(longer.drop_last() =~= shorter);
        lemma_digits_val_nonneg(shorter);
    }
}

/// Parse an unsigned decimal number. `None` exactly when the string is empty,
/// holds a non-digit, or the value does not fit in a `u64`.
pub fn parse_u64(s: &str) -> (r: Option<u64>)
    ensures
        match r {
            Option::Some(v) => s@.len() > 0 && all_digits(s@) && v == digits_val(s@),
            Option::None => s@.len() == 0 || !all_digits(s@) || digits_val(s@) > u64::MAX,
        },
{
    let n = s.unicode_len();
    if n == 0 {
        return None;
    }
    let mut acc: u64 = 0;
    let mut i: usize = 0;
    while i < n
        invariant
            n == s@.len(),
            i <= n,
            all_digits(s@.subrange(0, i as int)),
            acc == digits_val(s@.subrange(0, i as int)),
        decreases n - i,
    {
        let ghost shorter = s@.subrange(0, i as int);
        let ghost longer = s@.subrange(0, i + 1 as int);
        proof {
            assert(longer.drop_last() =~= shorter);
        }
        let c = s.get_char(i);
        let v = c as u32;
        if v < 48 || v > 57 {
            proof {
                assert(digit_val(s@[i as int]) == 10);
            }
            return None;
        }
        let d = (v - 48) as u64;
        let stepped = match acc.checked_mul(10) {
            Option::Some(m) => m.checked_add(d),
            Option::None => Option::None,
        };
        match stepped {
            Option::Some(m) => {
                acc = m;
            },
            Option::None => {
                proof {
                    assert(digits_val(longer) > u64::MAX);
                    lemma_digits_val_prefix(s@, i + 1);
                }
                return None;
            },
        }
        i = i + 1;
    }
    proof {
        assert(s@.subrange(0, n as int) =~= s@);
    }
    Some(acc)
}

} // verus!
