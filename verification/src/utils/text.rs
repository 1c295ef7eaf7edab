//! Character-level text work: decimal numerals, substring search, and the
//! pieces of a snapshot file's name.
use vstd::prelude::*;

verus! {

/// The characters of `s`, in order.
pub fn chars_of(s: &str) -> (r: Vec<char>)
    ensures
        r@ == s@,
{
    let n = s.unicode_len();
    let mut r: Vec<char> = Vec::new();
    let mut i: usize = 0;
    while i < n
        invariant
            n == s@.len(),
            i <= n,
            r@ == s@.take(i as int),
        decreases n - i,
    {
        let c = s.get_char(i);
        r.push(c);
        proof {
            assert(s@.take(i + 1) =~= s@.take(i as int).push(c));
        }
        i = i + 1;
    }
    assert(s@.take(n as int) =~= s@);
    r
}

/// `n` occurs in `h` starting at index `i`.
pub open spec fn occurs_at(h: Seq<char>, n: Seq<char>, i: int) -> bool {
    0 <= i && i + n.len() <= h.len() && h.subrange(i, i + n.len()) == n
}

/// `n` occurs somewhere in `h`.
pub open spec fn seq_contains_str(h: Seq<char>, n: Seq<char>) -> bool {
    exists|i: int| occurs_at(h, n, i)
}

/// Whether `n` occurs in `h` at index `i`.
fn occurs_at_exec(h: &Vec<char>, n: &Vec<char>, i: usize) -> (r: bool)
    requires
        i + n@.len() <= h@.len(),
    ensures
        r == occurs_at(h@, n@, i as int),
{
    let m = n.len();
    let hl = h.len();
    let mut j: usize = 0;
    while j < m
        invariant
            m == n@.len(),
            i + m <= h@.len(),
            hl == h@.len(),
            j <= m,
            forall|k: int| 0 <= k < j ==> h@[i + k] == n@[k],
        decreases m - j,
    {
        if h[i + j] != n[j] {
            assert(h@.subrange(i as int, i + m)[j as int] != n@[j as int]);
            return false;
        }
        j = j + 1;
    }
    assert(h@.subrange(i as int, i + m) =~= n@);
    true
}

/// Whether `n` occurs in `h`, as `str::contains` answers.
pub fn contains_chars(h: &Vec<char>, n: &Vec<char>) -> (r: bool)
    ensures
        r == seq_contains_str(h@, n@),
{
    if n.len() > h.len() {
        return false;
    }
    let last = h.len() - n.len();
    let mut i: usize = 0;
    loop
        invariant
            last + n@.len() == h@.len(),
            i <= last,
            forall|k: int| 0 <= k < i ==> !occurs_at(h@, n@, k),
        decreases last - i,
    {
        if occurs_at_exec(h, n, i) {
            return true;
        }
        if i == last {
            return false;
        }
        i = i + 1;
    }
}

/// The decimal digit character for `d` (below ten).
pub open spec fn digit_char(d: nat) -> char {
    if d == 0 { '0' }
    else if d == 1 { '1' }
    else if d == 2 { '2' }
    else if d == 3 { '3' }
    else if d == 4 { '4' }
    else if d == 5 { '5' }
    else if d == 6 { '6' }
    else if d == 7 { '7' }
    else if d == 8 { '8' }
    else { '9' }
}

/// `c` is an ASCII decimal digit.
pub open spec fn is_digit(c: char) -> bool {
    '0' <= c <= '9'
}

/// The number that the digit `c` stands for.
pub open spec fn digit_value(c: char) -> nat {
    (c as int - '0' as int) as nat
}

/// Every character of `s` is a decimal digit.
pub open spec fn all_digits(s: Seq<char>) -> bool {
    forall|i: int| 0 <= i < s.len() ==> is_digit(#[trigger] s[i])
}

/// The number that the digits `s` spell, most significant first.
pub open spec fn digits_value(s: Seq<char>) -> nat
    decreases s.len(),
{
    if s.len() == 0 {
        0
    } else {
        digits_value(s.drop_last()) * 10 + digit_value(s.last())
    }
}

/// The decimal numeral of `n`, as integers are displayed: no sign and no
/// leading zeros.
pub open spec fn decimal(n: nat) -> Seq<char>
    decreases n,
{
    if n < 10 {
        seq![digit_char(n)]
    } else {
        decimal(n / 10).push(digit_char(n % 10))
    }
}

/// What `str::parse::<u64>` gives for `s`: an optional `+` followed by one
/// or more decimal digits whose value fits in a `u64`; else nothing.
pub open spec fn spec_parse_u64(s: Seq<char>) -> Option<u64> {
    let body = if s.len() > 0 && s[0] == '+' { s.skip(1) } else { s };
    if body.len() > 0 && all_digits(body) && digits_value(body) <= u64::MAX {
        Some(digits_value(body) as u64)
    } else {
        None
    }
}

/// The part of `s` after its last underscore; all of `s` when it has none.
/// This is the last piece of `s` split at `_`.
pub open spec fn after_last_underscore(s: Seq<char>) -> Seq<char>
    decreases s.len(),
{
    if s.len() == 0 {
        s
    } else if s.last() == '_' {
        Seq::empty()
    } else {
        after_last_underscore(s.drop_last()).push(s.last())
    }
}

/// The extension of a snapshot file.
pub open spec fn rdb_extension() -> Seq<char> {
    seq!['.', 'r', 'd', 'b']
}

/// `s` with every occurrence of `.rdb` removed, the occurrences taken from
/// the left without overlap, as `str::replace` with an empty replacement
/// does.
pub open spec fn strip_rdb(s: Seq<char>) -> Seq<char>
    decreases s.len(),
{
    if s.len() == 0 {
        s
    } else if s.len() >= 4 && s.take(4) == rdb_extension() {
        strip_rdb(s.skip(4))
    } else {
        seq![s[0]] + strip_rdb(s.skip(1))
    }
}

/// The digit of `d` (below ten) as a string.
fn digit_str(d: u64) -> (r: &'static str)
    requires
        d < 10,
    ensures
        r@ == seq![digit_char(d as nat)],
{
    proof {
        reveal_strlit("0");
        reveal_strlit("1");
        reveal_strlit("2");
        reveal_strlit("3");
        reveal_strlit("4");
        reveal_strlit("5");
        reveal_strlit("6");
        reveal_strlit("7");
        reveal_strlit("8");
        reveal_strlit("9");
    }
    if d == 0 { "0" }
    else if d == 1 { "1" }
    else if d == 2 { "2" }
    else if d == 3 { "3" }
    else if d == 4 { "4" }
    else if d == 5 { "5" }
    else if d == 6 { "6" }
    else if d == 7 { "7" }
    else if d == 8 { "8" }
    else { "9" }
}

/// Appends the decimal numeral of `n` to `s`.
pub fn push_decimal(s: &mut String, n: u64)
    ensures
        final(s)@ == old(s)@ + decimal(n as nat),
    decreases n,
{
    if n < 10 {
        s.append(digit_str(n));
    } else {
        push_decimal(s, n / 10);
        s.append(digit_str(n % 10));
        proof {
            assert(decimal(n as nat) == decimal((n / 10) as nat).push(digit_char((n % 10) as nat)));
            assert(old(s)@ + decimal(n as nat) =~= old(s)@ + decimal((n / 10) as nat) + seq![digit_char((n % 10) as nat)]);
        }
    }
}

/// The digit character of a number below ten is a digit of that value.
pub proof fn lemma_digit_char(d: nat)
    requires
        d < 10,
    ensures
        is_digit(digit_char(d)),
        digit_value(digit_char(d)) == d,
{
}

/// The digits of a numeral have its value.
pub proof fn lemma_decimal_digits(n: nat)
    ensures
        decimal(n).len() > 0,
        all_digits(decimal(n)),
        digits_value(decimal(n)) == n,
        decimal(n)[0] != '+',
        decimal(n)[0] != '_',
    decreases n,
{
    if n >= 10 {
        lemma_decimal_digits(n / 10);
        lemma_digit_char(n % 10);
        let d = decimal(n / 10);
        assert(decimal(n).drop_last() == d);
        assert(decimal(n)[0] == d[0]);
        assert(decimal(n).last() == digit_char(n % 10));
        assert(digits_value(decimal(n)) == digits_value(d) * 10 + digit_value(digit_char(n % 10)));
        assert((n / 10) * 10 + n % 10 == n);
    } else {
        lemma_digit_char(n);
        assert(decimal(n).drop_last() =~= Seq::<char>::empty());
        assert(digits_value(decimal(n)) == digits_value(Seq::<char>::empty()) * 10 + digit_value(digit_char(n)));
    }
}

/// A numeral read back gives the number that it was written for.
pub proof fn lemma_parse_decimal(n: u64)
    ensures
        spec_parse_u64(decimal(n as nat)) == Some(n),
{
    lemma_decimal_digits(n as nat);
}

/// The part after the last underscore, when the characters from `i` on
/// hold no underscore and `i` starts the text or follows an underscore.
pub proof fn lemma_after_last_underscore(v: Seq<char>, i: int)
    requires
        0 <= i <= v.len(),
        forall|j: int| i <= j < v.len() ==> v[j] != '_',
        i == 0 || v[i - 1] == '_',
    ensures
        after_last_underscore(v) == v.skip(i),
    decreases v.len(),
{
    if v.len() == 0 {
        assert(v.skip(i) =~= v);
    } else if i == v.len() {
        assert(v.skip(i) =~= Seq::<char>::empty());
    } else {
        lemma_after_last_underscore(v.drop_last(), i);
        assert(v.drop_last().skip(i).push(v.last()) =~= v.skip(i));
    }
}

/// Where the last piece of `v` split at `_` starts.
pub fn last_piece_start(v: &Vec<char>) -> (r: usize)
    ensures
        r <= v@.len(),
        v@.skip(r as int) == after_last_underscore(v@),
{
    let mut i = v.len();
    while i > 0 && v[i - 1] != '_'
        invariant
            i <= v@.len(),
            forall|j: int| i <= j < v@.len() ==> v@[j] != '_',
        decreases i,
    {
        i = i - 1;
    }
    proof {
        lemma_after_last_underscore(v@, i as int);
    }
    i
}

/// The characters of `v` from `start` on, with every `.rdb` removed.
pub fn strip_rdb_chars(v: &Vec<char>, start: usize) -> (r: Vec<char>)
    requires
        start <= v@.len(),
    ensures
        r@ == strip_rdb(v@.skip(start as int)),
{
    let n = v.len();
    let mut out: Vec<char> = Vec::new();
    let mut i = start;
    while i < n
        invariant
            n == v@.len(),
            start <= i <= n,
            out@ + strip_rdb(v@.skip(i as int)) == strip_rdb(v@.skip(start as int)),
        decreases n - i,
    {
        let ghost t = v@.skip(i as int);
        if n - i >= 4 && v[i] == '.' && v[i + 1] == 'r' && v[i + 2] == 'd' && v[i + 3] == 'b' {
            proof {
                assert(t.take(4) =~= rdb_extension());
                assert(t.skip(4) =~= v@.skip(i + 4));
            }
            i = i + 4;
        } else {
            proof {
                assert(t.len() >= 4 ==> t.take(4)[0] == v@[i as int] && t.take(4)[1] == v@[i + 1]
                    && t.take(4)[2] == v@[i + 2] && t.take(4)[3] == v@[i + 3]);
                assert(!(t.len() >= 4 && t.take(4) == rdb_extension()));
                assert(t.skip(1) =~= v@.skip(i + 1));
                assert(strip_rdb(t) == seq![t[0]] + strip_rdb(t.skip(1)));
                assert(out@.push(v@[i as int]) + strip_rdb(v@.skip(i + 1)) =~= out@ + strip_rdb(t));
            }
            out.push(v[i]);
            i = i + 1;
        }
    }
    proof {
        assert(v@.skip(n as int) =~= Seq::<char>::empty());
        assert(out@ + Seq::<char>::empty() =~= out@);
    }
    out
}

/// A prefix of a run of digits has a value no larger than the whole run.
proof fn lemma_digits_prefix(s: Seq<char>, k: int)
    requires
        0 <= k <= s.len(),
    ensures
        digits_value(s.take(k)) <= digits_value(s),
    decreases s.len(),
{
    if k < s.len() {
        lemma_digits_prefix(s.drop_last(), k);
        assert(s.drop_last().take(k) =~= s.take(k));
    } else {
        assert(s.take(k) =~= s);
    }
}

/// The `u64` that `s` spells, as `str::parse::<u64>` reads it.
pub fn parse_u64_chars(s: &Vec<char>) -> (r: Option<u64>)
    ensures
        r == spec_parse_u64(s@),
{
    let n = s.len();
    let b: usize = if n > 0 && s[0] == '+' { 1 } else { 0 };
    let ghost body = if s@.len() > 0 && s@[0] == '+' { s@.skip(1) } else { s@ };
    proof {
        if b == 0 {
            assert(s@.skip(0) =~= s@);
        }
        assert(body =~= s@.skip(b as int));
        assert(spec_parse_u64(s@) == (if body.len() > 0 && all_digits(body) && digits_value(body) <= u64::MAX {
            Some(digits_value(body) as u64)
        } else {
            None
        }));
    }
    if b == n {
        return None;
    }
    let mut value: u64 = 0;
    let mut j = b;
    while j < n
        invariant
            n == s@.len(),
            b <= j <= n,
            body == s@.skip(b as int),
            spec_parse_u64(s@) == (if body.len() > 0 && all_digits(body) && digits_value(body) <= u64::MAX {
                Some(digits_value(body) as u64)
            } else {
                None
            }),
            all_digits(body.take(j - b)),
            value as nat == digits_value(body.take(j - b)),
        decreases n - j,
    {
        let c = s[j];
        proof {
            assert(body[j - b] == c);
        }
        if !(c >= '0' && c <= '9') {
            proof {
                assert(!is_digit(body[j - b]));
                assert(!all_digits(body));
            }
            return None;
        }
        let d = (c as u32 - '0' as u32) as u64;
        let next: u128 = (value as u128) * 10 + (d as u128);
        proof {
            let t = body.take(j + 1 - b);
            assert(t.drop_last() =~= body.take(j - b));
            assert(t.last() == c);
            assert(digits_value(t) == next);
            assert(all_digits(t));
        }
        if next > u64::MAX as u128 {
            proof {
                if all_digits(body) {
                    lemma_digits_prefix(body, j + 1 - b);
                    assert(digits_value(body) > u64::MAX);
                }
                assert(spec_parse_u64(s@) is None);
            }
            return None;
        }
        value = next as u64;
        j = j + 1;
    }
    proof {
        assert(body.take(n - b) =~= body);
    }
    Some(value)
}

} // verus!
