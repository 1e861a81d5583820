use vstd::prelude::*;

verus! {

/// Whether `c` has the Unicode `White_Space` property.
pub open spec fn is_ws(c: char) -> bool {
    let u = c as u32;
    ||| 9 <= u <= 13
    ||| u == 32
    ||| u == 0x85
    ||| u == 0xA0
    ||| u == 0x1680
    ||| 0x2000 <= u <= 0x200A
    ||| u == 0x2028
    ||| u == 0x2029
    ||| u == 0x202F
    ||| u == 0x205F
    ||| u == 0x3000
}

/// Executable test of the Unicode `White_Space` property.
pub fn is_whitespace(c: char) -> (r: bool)
    ensures
        r == is_ws(c),
{
    let u = c as u32;
    (9 <= u && u <= 13) || u == 32 || u == 0x85 || u == 0xA0 || u == 0x1680 || (0x2000 <= u && u
        <= 0x200A) || u == 0x2028 || u == 0x2029 || u == 0x202F || u == 0x205F || u == 0x3000
}

/// The characters of `s`, in order.
pub fn chars_of(s: &str) -> (v: Vec<char>)
    ensures
        v@ == s@,
{
    let mut v: Vec<char> = Vec::new();
    for c in it: s.chars()
        invariant
            v@ == it.seq().take(it.index() as int),
            it.seq() == s@,
    {
        v.push(c);
    }
    v
}

/// Appends one character to a string (`String::push`).
#[verifier::external_body]
pub(crate) fn push_char(s: &mut String, c: char)
    ensures
        final(s)@ == old(s)@.push(c),
{
    s.push(c);
}


/// A string holding exactly the characters of `v`.
pub fn string_of(v: &Vec<char>) -> (s: String)
    ensures
        s@ == v@,
{
    let mut s = String::new();
    let mut i: usize = 0;
    while i < v.len()
        invariant
            i <= v.len(),
            s@ == v@.take(i as int),
        decreases v.len() - i,
    {
        push_char(&mut s, v[i]);
        proof {
            assert(v@.take(i as int).push(v@[i as int]) =~= v@.take(i + 1));
        }
        i += 1;
    }
    proof {
        assert(v@.take(v.len() as int) =~= v@);
    }
    s
}

/// Appends all characters of `v` to `s`.
pub fn append_chars(s: &mut String, v: &Vec<char>)
    ensures
        final(s)@ == old(s)@ + v@,
{
    let mut i: usize = 0;
    while i < v.len()
        invariant
            i <= v.len(),
            s@ == old(s)@ + v@.take(i as int),
        decreases v.len() - i,
    {
        push_char(s, v[i]);
        proof {
            assert(v@.take(i as int).push(v@[i as int]) =~= v@.take(i + 1));
            assert((old(s)@ + v@.take(i as int)).push(v@[i as int]) =~= old(s)@ + v@.take(i + 1));
        }
        i += 1;
    }
    proof {
        assert(v@.take(v.len() as int) =~= v@);
    }
}

// ---------------------------------------------------------------------------
// Trimming
// ---------------------------------------------------------------------------

/// `s` without its leading whitespace.
pub open spec fn trim_start(s: Seq<char>) -> Seq<char>
    decreases s.len(),
{
    if s.len() > 0 && is_ws(s[0]) {
        trim_start(s.drop_first())
    } else {
        s
    }
}

/// `s` without its trailing whitespace.
pub open spec fn trim_end(s: Seq<char>) -> Seq<char>
    decreases s.len(),
{
    if s.len() > 0 && is_ws(s.last()) {
        trim_end(s.drop_last())
    } else {
        s
    }
}

/// `s` without leading and trailing whitespace (as `str::trim`).
pub open spec fn trim(s: Seq<char>) -> Seq<char> {
    trim_end(trim_start(s))
}

/// The characters of `v` between `lo` and `hi`.
pub fn slice_chars(v: &Vec<char>, lo: usize, hi: usize) -> (r: Vec<char>)
    requires
        lo <= hi <= v.len(),
    ensures
        r@ == v@.subrange(lo as int, hi as int),
{
    let mut r: Vec<char> = Vec::new();
    let mut k = lo;
    while k < hi
        invariant
            lo <= k <= hi <= v.len(),
            r@ == v@.subrange(lo as int, k as int),
        decreases hi - k,
    {
        r.push(v[k]);
        proof {
            assert(v@.subrange(lo as int, k as int).push(v@[k as int]) =~= v@.subrange(
                lo as int,
                k + 1,
            ));
        }
        k += 1;
    }
    r
}

/// `v` without leading and trailing whitespace.
pub fn trim_chars(v: &Vec<char>) -> (r: Vec<char>)
    ensures
        r@ == trim(v@),
{
    let n = v.len();
    let mut i: usize = 0;
    proof {
        assert(v@.subrange(0, n as int) =~= v@);
    }
    while i < n && is_whitespace(v[i])
        invariant
            i <= n == v.len(),
            trim_start(v@) == trim_start(v@.subrange(i as int, n as int)),
        decreases n - i,
    {
        proof {
            let t = v@.subrange(i as int, n as int);
            assert(t.drop_first() =~= v@.subrange(i + 1, n as int));
        }
        i += 1;
    }
    let mut j: usize = n;
    while j > i && is_whitespace(v[j - 1])
        invariant
            i <= j <= n == v.len(),
            trim_start(v@) == v@.subrange(i as int, n as int),
            trim_end(v@.subrange(i as int, n as int)) == trim_end(v@.subrange(i as int, j as int)),
        decreases j - i,
    {
        proof {
            let t = v@.subrange(i as int, j as int);
            assert(t.drop_last() =~= v@.subrange(i as int, j - 1));
        }
        j -= 1;
    }
    slice_chars(v, i, j)
}


// ---------------------------------------------------------------------------
// Splitting and joining
// ---------------------------------------------------------------------------

/// The pieces of `s` between occurrences of any character of `seps`
/// (as `str::split` with a character predicate): always at least one piece.
pub open spec fn split_by(s: Seq<char>, seps: Seq<char>) -> Seq<Seq<char>>
    decreases s.len(),
{
    if s.len() == 0 {
        seq![Seq::<char>::empty()]
    } else {
        let p = split_by(s.drop_last(), seps);
        if seps.contains(s.last()) {
            p.push(Seq::<char>::empty())
        } else {
            p.update(p.len() - 1, p.last().push(s.last()))
        }
    }
}

/// Splitting always yields at least one piece.
pub proof fn lemma_split_by_nonempty(s: Seq<char>, seps: Seq<char>)
    ensures
        split_by(s, seps).len() >= 1,
    decreases s.len(),
{
    if s.len() > 0 {
        lemma_split_by_nonempty(s.drop_last(), seps);
    }
}

/// The pieces `ps` joined with `sep` between consecutive pieces.
pub open spec fn join(ps: Seq<Seq<char>>, sep: Seq<char>) -> Seq<char>
    decreases ps.len(),
{
    if ps.len() == 0 {
        Seq::empty()
    } else if ps.len() == 1 {
        ps[0]
    } else {
        join(ps.drop_last(), sep) + sep + ps.last()
    }
}

/// Whether `c` occurs in `v`.
pub fn contains_char(v: &[char], c: char) -> (r: bool)
    ensures
        r == v@.contains(c),
{
    let mut i: usize = 0;
    while i < v.len()
        invariant
            i <= v.len(),
            forall|k: int| 0 <= k < i ==> v@[k] != c,
        decreases v.len() - i,
    {
        if v[i] == c {
            return true;
        }
        i += 1;
    }
    false
}

/// The pieces of `s` between separator characters.
pub fn split_chars(s: &Vec<char>, seps: &[char]) -> (r: Vec<Vec<char>>)
    ensures
        r.len() == split_by(s@, seps@).len(),
        forall|k: int| 0 <= k < r.len() ==> #[trigger] r@[k]@ == split_by(s@, seps@)[k],
{
    let mut done: Vec<Vec<char>> = Vec::new();
    let mut cur: Vec<char> = Vec::new();
    let mut i: usize = 0;
    proof {
        assert(s@.take(0) =~= Seq::<char>::empty());
    }
    while i < s.len()
        invariant
            i <= s.len(),
            done.len() + 1 == split_by(s@.take(i as int), seps@).len(),
            forall|k: int| 0 <= k < done.len() ==> #[trigger] done@[k]@ == split_by(s@.take(i as int), seps@)[k],
            cur@ == split_by(s@.take(i as int), seps@).last(),
        decreases s.len() - i,
    {
        let c = s[i];
        proof {
            let t = s@.take(i + 1);
            assert(t.drop_last() =~= s@.take(i as int));
            assert(t.last() == c);
            lemma_split_by_nonempty(s@.take(i as int), seps@);
        }
        if contains_char(seps, c) {
            done.push(cur);
            cur = Vec::new();
        } else {
            cur.push(c);
        }
        i += 1;
    }
    proof {
        assert(s@.take(s.len() as int) =~= s@);
    }
    done.push(cur);
    done
}

// ---------------------------------------------------------------------------
// Decimal numbers
// ---------------------------------------------------------------------------

/// The ASCII digit for `d` (`d < 10`).
pub open spec fn digit(d: nat) -> char {
    (d + 48) as char
}

/// The decimal representation of `n`, without leading zeros.
pub open spec fn decimal(n: nat) -> Seq<char>
    decreases n,
{
    if n < 10 {
        seq![digit(n)]
    } else {
        decimal(n / 10).push(digit(n % 10))
    }
}

fn digit_char(d: usize) -> (c: char)
    requires
        d < 10,
    ensures
        c == digit(d as nat),
{
    let b: u8 = 48 + d as u8;
    b as char
}

/// The decimal representation of `n` (as `usize::to_string`).
pub fn decimal_string(n: usize) -> (s: String)
    ensures
        s@ == decimal(n as nat),
    decreases n,
{
    if n < 10 {
        let mut s = String::new();
        push_char(&mut s, digit_char(n));
        proof {
            assert(s@ =~= seq![digit(n as nat)]);
        }
        s
    } else {
        let mut s = decimal_string(n / 10);
        push_char(&mut s, digit_char(n % 10));
        s
    }
}

/// Whether `c` is an ASCII decimal digit.
pub open spec fn is_digit(c: char) -> bool {
    48 <= (c as u32) <= 57
}

/// The value of a sequence of ASCII digits.
pub open spec fn digits_value(s: Seq<char>) -> nat
    decreases s.len(),
{
    if s.len() == 0 {
        0
    } else {
        digits_value(s.drop_last()) * 10 + ((s.last() as u32) - 48) as nat
    }
}

/// The digits of an unsigned decimal literal: an optional leading `+` removed.
pub open spec fn unsigned_body(s: Seq<char>) -> Seq<char> {
    if s.len() > 0 && s[0] == '+' {
        s.drop_first()
    } else {
        s
    }
}

/// The value that `str::parse` gives an unsigned integer literal `s`, before
/// the range check: `None` unless `s` is an optional `+` followed by one or
/// more ASCII digits.
pub open spec fn unsigned_value(s: Seq<char>) -> Option<nat> {
    let b = unsigned_body(s);
    if b.len() > 0 && (forall|k: int| 0 <= k < b.len() ==> is_digit(#[trigger] b[k])) {
        Some(digits_value(b))
    } else {
        None
    }
}

/// What `str::parse::<T>` gives for an unsigned type whose largest value is `max`.
pub open spec fn parse_unsigned(s: Seq<char>, max: nat) -> Option<nat> {
    match unsigned_value(s) {
        Some(v) => if v <= max {
            Some(v)
        } else {
            None
        },
        None => None,
    }
}

proof fn lemma_digits_value_grows(s: Seq<char>, t: Seq<char>)
    requires
        t.len() > 0,
        forall|k: int| 0 <= k < t.len() ==> is_digit(#[trigger] t[k]),
    ensures
        digits_value(s + t) >= digits_value(s),
    decreases t.len(),
{
    let u = s + t;
    assert(u.drop_last() =~= s + t.drop_last());
    if t.len() > 1 {
        lemma_digits_value_grows(s, t.drop_last());
    } else {
        assert(t.drop_last() =~= Seq::<char>::empty());
        assert(s + t.drop_last() =~= s);
    }
}

/// Parses an unsigned decimal literal whose value must not exceed `max`.
pub fn parse_unsigned_chars(v: &Vec<char>, max: usize) -> (r: Option<usize>)
    ensures
        r == (match parse_unsigned(v@, max as nat) {
            Some(x) => Some(x as usize),
            None => None::<usize>,
        }),
{
    let n = v.len();
    let start: usize = if n > 0 && v[0] == '+' {
        1
    } else {
        0
    };
    let ghost b = unsigned_body(v@);
    proof {
        assert(b =~= v@.subrange(start as int, n as int));
    }
    if start == n {
        return None;
    }
    let mut acc: usize = 0;
    let mut overflow = false;
    let mut i = start;
    while i < n
        invariant
            start <= i <= n == v.len(),
            b == v@.subrange(start as int, n as int),
            b == unsigned_body(v@),
            forall|k: int| start <= k < i ==> is_digit(#[trigger] v@[k]),
            !overflow ==> acc as nat == digits_value(v@.subrange(start as int, i as int)),
            !overflow ==> acc <= max,
            overflow ==> digits_value(v@.subrange(start as int, i as int)) > max,
            overflow ==> i > start,
        decreases n - i,
    {
        let c = v[i];
        let u = c as u32;
        if !(48 <= u && u <= 57) {
            proof {
                assert(b[i - start] == c);
                assert(!is_digit(b[i - start]));
            }
            return None;
        }
        proof {
            let p = v@.subrange(start as int, i + 1);
            assert(p.drop_last() =~= v@.subrange(start as int, i as int));
            assert(p.last() == c);
        }
        if !overflow {
            let d = (u - 48) as usize;
            if d > max || acc > (max - d) / 10 {
                overflow = true;
                proof {
                    if d <= max {
                        assert(acc * 10 + d > max) by (nonlinear_arith)
                            requires
                                acc > (max - d) / 10,
                                d <= max,
                        {
                        }
                    }
                }
            } else {
                proof {
                    assert(acc * 10 + d <= max) by (nonlinear_arith)
                        requires
                            acc <= (max - d) / 10,
                            d <= max,
                    {
                    }
                }
                acc = acc * 10 + d;
            }
        } else {
            proof {
                let p = v@.subrange(start as int, i + 1);
                let q = v@.subrange(start as int, i as int);
                let dd = ((c as u32) - 48) as nat;
                assert(digits_value(p) == digits_value(q) * 10 + dd);
                assert(digits_value(q) * 10 >= digits_value(q)) by (nonlinear_arith);
            }
        }
        i += 1;
    }
    proof {
        assert forall|k: int| 0 <= k < b.len() implies is_digit(#[trigger] b[k]) by {
            assert(b[k] == v@[start + k]);
        }
    }
    if overflow {
        None
    } else {
        Some(acc)
    }
}


// ---------------------------------------------------------------------------
// Searching and replacing
// ---------------------------------------------------------------------------

/// Whether `pat` occurs in `s` starting at index `i`.
pub open spec fn occurs_at(s: Seq<char>, pat: Seq<char>, i: int) -> bool {
    0 <= i && i + pat.len() <= s.len() && s.subrange(i, i + pat.len()) == pat
}

/// The first index at or after `i` where `pat` occurs in `s`.
pub open spec fn find_from(s: Seq<char>, pat: Seq<char>, i: nat) -> Option<nat>
    decreases s.len() - i,
{
    if i + pat.len() > s.len() {
        None
    } else if occurs_at(s, pat, i as int) {
        Some(i)
    } else if i < s.len() {
        find_from(s, pat, i + 1)
    } else {
        None
    }
}

/// The first index where `pat` occurs in `s` (as `str::find`, counted in characters).
pub open spec fn find(s: Seq<char>, pat: Seq<char>) -> Option<nat> {
    find_from(s, pat, 0)
}

/// Whether `pat` occurs in `s` (as `str::contains`).
pub open spec fn contains(s: Seq<char>, pat: Seq<char>) -> bool {
    find(s, pat) is Some
}

/// Whether `s` begins with `pat` (as `str::starts_with`).
pub open spec fn starts_with(s: Seq<char>, pat: Seq<char>) -> bool {
    occurs_at(s, pat, 0)
}

/// Whether `pat` occurs in `v` at index `i`.
pub fn occurs_at_exec(v: &Vec<char>, pat: &Vec<char>, i: usize) -> (r: bool)
    ensures
        r == occurs_at(v@, pat@, i as int),
{
    if i > v.len() || pat.len() > v.len() - i {
        return false;
    }
    let mut k: usize = 0;
    while k < pat.len()
        invariant
            i + pat.len() <= v.len(),
            k <= pat.len(),
            forall|j: int| 0 <= j < k ==> v@[i + j] == pat@[j],
        decreases pat.len() - k,
    {
        if v[i + k] != pat[k] {
            proof {
                assert(v@.subrange(i as int, i + pat.len())[k as int] != pat@[k as int]);
            }
            return false;
        }
        k += 1;
    }
    proof {
        assert(v@.subrange(i as int, i + pat.len()) =~= pat@);
    }
    true
}

/// The first index at or after `from` where `pat` occurs in `v`.
pub fn find_from_exec(v: &Vec<char>, pat: &Vec<char>, from: usize) -> (r: Option<usize>)
    ensures
        match r {
            Some(p) => find_from(v@, pat@, from as nat) == Some(p as nat),
            None => find_from(v@, pat@, from as nat) is None,
        },
    decreases v.len() - from,
{
    if from > v.len() || pat.len() > v.len() - from {
        return None;
    }
    if occurs_at_exec(v, pat, from) {
        return Some(from);
    }
    if from < v.len() {
        find_from_exec(v, pat, from + 1)
    } else {
        None
    }
}

/// `s` from index `i` on, with each leftmost non-overlapping occurrence of `pat`
/// replaced by `rep`.
pub open spec fn replace_from(s: Seq<char>, pat: Seq<char>, rep: Seq<char>, i: nat) -> Seq<char>
    decreases s.len() - i,
{
    if i >= s.len() {
        Seq::empty()
    } else if pat.len() == 0 {
        s.subrange(i as int, s.len() as int)
    } else if occurs_at(s, pat, i as int) {
        rep + replace_from(s, pat, rep, i + pat.len())
    } else {
        seq![s[i as int]] + replace_from(s, pat, rep, i + 1)
    }
}

/// `s` with every occurrence of the nonempty `pat` replaced by `rep` (as `str::replace`).
pub open spec fn replace_all(s: Seq<char>, pat: Seq<char>, rep: Seq<char>) -> Seq<char> {
    replace_from(s, pat, rep, 0)
}

/// `v` with every occurrence of `pat` replaced by `rep`.
pub fn replace_chars(v: &Vec<char>, pat: &Vec<char>, rep: &Vec<char>) -> (r: Vec<char>)
    requires
        pat.len() > 0,
    ensures
        r@ == replace_all(v@, pat@, rep@),
{
    let mut out: Vec<char> = Vec::new();
    let mut i: usize = 0;
    while i < v.len()
        invariant
            pat.len() > 0,
            i <= v.len(),
            out@ + replace_from(v@, pat@, rep@, i as nat) == replace_all(v@, pat@, rep@),
        decreases v.len() - i,
    {
        if occurs_at_exec(v, pat, i) {
            let ghost before = out@;
            let mut k: usize = 0;
            while k < rep.len()
                invariant
                    k <= rep.len(),
                    out@ == before + rep@.take(k as int),
                decreases rep.len() - k,
            {
                out.push(rep[k]);
                proof {
                    assert(rep@.take(k as int).push(rep@[k as int]) =~= rep@.take(k + 1));
                    assert((before + rep@.take(k as int)).push(rep@[k as int]) =~= before + rep@.take(k + 1));
                }
                k += 1;
            }
            proof {
                assert(rep@.take(rep.len() as int) =~= rep@);
                assert(before + (rep@ + replace_from(v@, pat@, rep@, (i + pat.len()) as nat)) =~= out@ + replace_from(v@, pat@, rep@, (i + pat.len()) as nat));
            }
            i = i + pat.len();
        } else {
            let ghost before = out@;
            out.push(v[i]);
            proof {
                assert(before + (seq![v@[i as int]] + replace_from(v@, pat@, rep@, (i + 1) as nat)) =~= out@ + replace_from(v@, pat@, rep@, (i + 1) as nat));
            }
            i += 1;
        }
    }
    proof {
        assert(out@ + Seq::<char>::empty() =~= out@);
    }
    out
}

// ---------------------------------------------------------------------------
// Counting and cutting
// ---------------------------------------------------------------------------

/// The number of characters of `s` that are not whitespace.
pub open spec fn count_non_ws(s: Seq<char>) -> nat
    decreases s.len(),
{
    if s.len() == 0 {
        0
    } else {
        count_non_ws(s.drop_last()) + if is_ws(s.last()) {
            0nat
        } else {
            1nat
        }
    }
}

/// The number of non-whitespace characters of `s`.
pub fn count_non_whitespace(s: &str) -> (n: usize)
    ensures
        n as nat == count_non_ws(s@),
{
    let v = chars_of(s);
    let mut n: usize = 0;
    let mut i: usize = 0;
    proof {
        assert(v@.take(0) =~= Seq::<char>::empty());
    }
    while i < v.len()
        invariant
            i <= v.len(),
            n <= i,
            n as nat == count_non_ws(v@.take(i as int)),
        decreases v.len() - i,
    {
        proof {
            assert(v@.take(i + 1).drop_last() =~= v@.take(i as int));
        }
        if !is_whitespace(v[i]) {
            n += 1;
        }
        i += 1;
    }
    proof {
        assert(v@.take(v.len() as int) =~= v@);
    }
    n
}

/// At most the first `max` characters of `s`, followed by `…` when characters were cut.
pub open spec fn truncated(s: Seq<char>, max: nat) -> Seq<char> {
    if s.len() > max {
        s.take(max as int).push('…')
    } else {
        s
    }
}

/// `s` cut to `max` characters, with `…` marking a cut.
pub fn truncate_chars(s: &str, max: usize) -> (r: String)
    ensures
        r@ == truncated(s@, max as nat),
{
    let v = chars_of(s);
    if v.len() > max {
        let mut out = string_of(&slice_chars(&v, 0, max));
        push_char(&mut out, '…');
        out
    } else {
        string_of(&v)
    }
}

/// The last `n` characters of `s`, or all of `s` when it is not longer than `n`.
pub open spec fn tail(s: Seq<char>, n: nat) -> Seq<char> {
    if s.len() <= n {
        s
    } else {
        s.subrange(s.len() - n, s.len() as int)
    }
}


/// Whether two character vectors are equal.
pub fn chars_equal(a: &Vec<char>, b: &Vec<char>) -> (r: bool)
    ensures
        r == (a@ == b@),
{
    if a.len() != b.len() {
        return false;
    }
    let mut i: usize = 0;
    while i < a.len()
        invariant
            a.len() == b.len(),
            i <= a.len(),
            forall|k: int| 0 <= k < i ==> a@[k] == b@[k],
        decreases a.len() - i,
    {
        if a[i] != b[i] {
            return false;
        }
        i += 1;
    }
    proof {
        assert(a@ =~= b@);
    }
    true
}

/// Whether two strings hold the same characters.
pub fn str_equal(a: &str, b: &str) -> (r: bool)
    ensures
        r == (a@ == b@),
{
    chars_equal(&chars_of(a), &chars_of(b))
}

/// Appends the characters of `t` to `s`.
pub fn append_string(s: &mut String, t: &String)
    ensures
        final(s)@ == old(s)@ + t@,
{
    s.append(t.as_str());
}


/// `s` with every occurrence of the nonempty `pat` replaced by `rep`.
pub fn replace_str(s: &str, pat: &str, rep: &str) -> (r: String)
    requires
        pat@.len() > 0,
    ensures
        r@ == replace_all(s@, pat@, rep@),
{
    string_of(&replace_chars(&chars_of(s), &chars_of(pat), &chars_of(rep)))
}

} // verus!
