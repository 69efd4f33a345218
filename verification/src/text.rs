use vstd::prelude::*;

verus! {

/// The character of a decimal digit `d` (0..=9).
pub open spec fn digit_char(d: int) -> char {
    (48 + d) as char
}

/// Decimal digits of a natural number, most significant first, without leading zeros.
pub open spec fn nat_digits(n: nat) -> Seq<char>
    decreases n,
{
    if n < 10 {
        seq![digit_char(n as int)]
    } else {
        nat_digits(n / 10).push(digit_char((n % 10) as int))
    }
}

/// The text that Rust's `Display` gives an integer: a '-' before negatives, then the digits.
pub open spec fn int_decimal(i: int) -> Seq<char> {
    if i < 0 {
        seq!['-'] + nat_digits((-i) as nat)
    } else {
        nat_digits(i as nat)
    }
}

/// Trusted: calls `String::push`, which std documents as appending `c` to the
/// end of the string; the contract claims exactly that and nothing more.
#[verifier::external_body]
fn push_char(s: &mut String, c: char)
    ensures
        final(s)@ == old(s)@.push(c),
{
    s.push(c);
}

fn digit_to_char(d: u64) -> (c: char)
    requires
        d < 10,
    ensures
        c == digit_char(d as int),
{
    let b: u8 = 48u8 + (d as u8);
    b as char
}

fn push_digits(s: &mut String, n: u64)
    ensures
        final(s)@ == old(s)@ + nat_digits(n as nat),
    decreases n,
{
    if n >= 10 {
        push_digits(s, n / 10);
    }
    push_char(s, digit_to_char(n % 10));
    proof {
        assert(old(s)@ + nat_digits(n as nat) =~= s@);
    }
}

/// Decimal text of an `i32`, as `to_string` gives it.
pub fn i32_to_decimal(n: i32) -> (r: String)
    ensures
        r@ == int_decimal(n as int),
{
    let mut s = String::new();
    if n < 0 {
        push_char(&mut s, '-');
        let m: i64 = -(n as i64);
        push_digits(&mut s, m as u64);
    } else {
        push_digits(&mut s, n as u64);
    }
    s
}


/// The characters of a string slice, in order.
pub fn chars_of(s: &str) -> (v: Vec<char>)
    ensures
        v@ == s@,
{
    let n = s.unicode_len();
    let mut v: Vec<char> = Vec::new();
    let mut i: usize = 0;
    while i < n
        invariant
            n == s@.len(),
            i <= n,
            v@ == s@.take(i as int),
        decreases n - i,
    {
        let c = s.get_char(i);
        v.push(c);
        i = i + 1;
        assert(v@ =~= s@.take(i as int));
    }
    assert(s@.take(n as int) =~= s@);
    v
}

/// A string holding the given characters, in order.
pub fn string_of(v: &Vec<char>) -> (s: String)
    ensures
        s@ == v@,
{
    let mut s = String::new();
    let mut i: usize = 0;
    while i < v.len()
        invariant
            i <= v.len(),
            s@ == v@.take(i as int),
        decreases v.len() - i,
    {
        push_char(&mut s, v[i]);
        i = i + 1;
        assert(s@ =~= v@.take(i as int));
    }
    assert(v@.take(v.len() as int) =~= v@);
    s
}

/// Whether two string slices hold the same characters.
pub fn text_eq(a: &str, b: &str) -> (r: bool)
    ensures
        r == (a@ == b@),
{
    let x = String::from_str(a);
    let y = String::from_str(b);
    x == y
}

/// `a` followed by `b`, as a new string.
pub fn concat2(a: &str, b: &str) -> (r: String)
    ensures
        r@ == a@ + b@,
{
    let mut r = String::from_str(a);
    r.append(b);
    r
}

/// `a`, `b` and `c` one after another, as a new string.
pub fn concat3(a: &str, b: &str, c: &str) -> (r: String)
    ensures
        r@ == a@ + b@ + c@,
{
    let mut r = String::from_str(a);
    r.append(b);
    r.append(c);
    r
}

pub open spec fn is_digit(c: char) -> bool {
    '0' <= c <= '9'
}

/// The value of a run of decimal digits (most significant first).
pub open spec fn digits_value(s: Seq<char>) -> int
    decreases s.len(),
{
    if s.len() == 0 {
        0
    } else {
        digits_value(s.drop_last()) * 10 + (s.last() as int - 48)
    }
}

pub open spec fn all_digits(s: Seq<char>) -> bool {
    forall|i: int| 0 <= i < s.len() ==> is_digit(#[trigger] s[i])
}

/// The digits that `str::parse::<u64>` reads: one leading '+' is dropped.
pub open spec fn unsigned_body(s: Seq<char>) -> Seq<char> {
    if s.len() > 0 && s[0] == '+' {
        s.drop_first()
    } else {
        s
    }
}

/// What `str::parse::<u64>` gives: the value of an optional '+' followed by
/// at least one decimal digit, when it fits in 64 bits; nothing otherwise.
pub open spec fn parse_u64_spec(s: Seq<char>) -> Option<u64> {
    let d = unsigned_body(s);
    if d.len() > 0 && all_digits(d) && digits_value(d) <= u64::MAX {
        Some(digits_value(d) as u64)
    } else {
        None
    }
}

proof fn lemma_digits_value_nonneg(s: Seq<char>)
    requires
        all_digits(s),
    ensures
        digits_value(s) >= 0,
    decreases s.len(),
{
    if s.len() > 0 {
        assert(all_digits(s.drop_last()));
        lemma_digits_value_nonneg(s.drop_last());
    }
}

/// Reads an unsigned decimal number as `str::parse::<u64>` does.
pub fn parse_u64(s: &str) -> (r: Option<u64>)
    ensures
        r == parse_u64_spec(s@),
{
    let v = chars_of(s);
    let n = v.len();
    let mut start: usize = 0;
    if n > 0 && v[0] == '+' {
        start = 1;
    }
    let ghost d = unsigned_body(s@);
    assert(d =~= v@.skip(start as int));
    if start >= n {
        return None;
    }
    let mut acc: u64 = 0;
    let mut over = false;
    let mut i: usize = start;
    while i < n
        invariant
            start <= i <= n,
            v@ == s@,
            n == v@.len(),
            d == v@.skip(start as int),
            d == unsigned_body(s@),
            all_digits(v@.subrange(start as int, i as int)),
            over <==> digits_value(v@.subrange(start as int, i as int)) > u64::MAX,
            !over ==> acc == digits_value(v@.subrange(start as int, i as int)),
        decreases n - i,
    {
        let c = v[i];
        if !('0' <= c && c <= '9') {
            assert(d[i - start] == c);
            assert(!is_digit(d[i - start]));
            assert(!all_digits(d));
            return None;
        }
        let ghost pre = v@.subrange(start as int, i as int);
        let ghost next = v@.subrange(start as int, i + 1);
        assert(next.drop_last() =~= pre);
        assert(next.last() == c);
        assert(all_digits(next)) by {
            assert forall|k: int| 0 <= k < next.len() implies is_digit(#[trigger] next[k]) by {
                if k < pre.len() {
                    assert(next[k] == pre[k]);
                }
            }
        }
        let dv: u64 = (c as u32 - 48) as u64;
        assert(dv == c as int - 48);
        if !over {
            if acc > (u64::MAX - dv) / 10 {
                over = true;
                assert(acc * 10 + dv > u64::MAX) by (nonlinear_arith)
                    requires
                        acc > (u64::MAX - dv) / 10,
                        dv <= 9,
                ;
            } else {
                assert(acc * 10 + dv <= u64::MAX) by (nonlinear_arith)
                    requires
                        acc <= (u64::MAX - dv) / 10,
                        dv <= 9,
                ;
                acc = acc * 10 + dv;
            }
        } else {
            proof {
                lemma_digits_value_nonneg(pre);
                assert(digits_value(pre) * 10 + dv > u64::MAX) by (nonlinear_arith)
                    requires
                        digits_value(pre) > u64::MAX,
                        dv >= 0,
                ;
            }
        }
        i = i + 1;
    }
    assert(v@.subrange(start as int, n as int) =~= d);
    if over {
        None
    } else {
        Some(acc)
    }
}


/// How `Path::join` joins two relative-or-absolute paths on Unix: an absolute
/// `name` replaces `base`; otherwise a '/' is put between them unless `base`
/// is empty or already ends in one.
pub open spec fn join_path_spec(base: Seq<char>, name: Seq<char>) -> Seq<char> {
    if name.len() > 0 && name[0] == '/' {
        name
    } else if base.len() > 0 && base.last() != '/' {
        base + seq!['/'] + name
    } else {
        base + name
    }
}

/// Joins two paths as `Path::new(base).join(name)` does on Unix.
pub fn join_path(base: &str, name: &str) -> (r: String)
    ensures
        r@ == join_path_spec(base@, name@),
{
    let nl = name.unicode_len();
    if nl > 0 && name.get_char(0) == '/' {
        return String::from_str(name);
    }
    let bl = base.unicode_len();
    if bl > 0 && base.get_char(bl - 1) != '/' {
        proof {
            reveal_strlit("/");
        }
        let r = concat3(base, "/", name);
        assert(r@ =~= base@ + seq!['/'] + name@);
        r
    } else {
        concat2(base, name)
    }
}

/// Every non-overlapping occurrence of `pat` in `s`, found from the left,
/// replaced by `rep` (the meaning of `str::replace` for a non-empty pattern).
pub open spec fn replace_all_spec(s: Seq<char>, pat: Seq<char>, rep: Seq<char>) -> Seq<char>
    decreases s.len(),
{
    if pat.len() == 0 || s.len() < pat.len() {
        s
    } else if s.take(pat.len() as int) == pat {
        rep + replace_all_spec(s.skip(pat.len() as int), pat, rep)
    } else {
        seq![s[0]] + replace_all_spec(s.drop_first(), pat, rep)
    }
}

fn matches_at(v: &Vec<char>, i: usize, p: &Vec<char>) -> (r: bool)
    requires
        i + p@.len() <= v@.len(),
    ensures
        r == (v@.subrange(i as int, i + p@.len()) == p@),
{
    let m = p.len();
    let vl = v.len();
    let mut k: usize = 0;
    while k < m
        invariant
            m == p@.len(),
            vl == v@.len(),
            i + m <= vl,
            k <= m,
            forall|j: int| 0 <= j < k ==> v@[i + j] == p@[j],
        decreases m - k,
    {
        if v[i + k] != p[k] {
            assert(v@.subrange(i as int, i + m)[k as int] != p@[k as int]);
            return false;
        }
        k = k + 1;
    }
    assert(v@.subrange(i as int, i + m) =~= p@);
    true
}

/// Replaces every occurrence of `pat` in `s` by `rep`, as `str::replace` does.
pub fn replace_all(s: &str, pat: &str, rep: &str) -> (r: String)
    requires
        pat@.len() > 0,
    ensures
        r@ == replace_all_spec(s@, pat@, rep@),
{
    let v = chars_of(s);
    let p = chars_of(pat);
    let n = v.len();
    let m = p.len();
    let mut out = String::new();
    let mut i: usize = 0;
    assert(v@.skip(0) =~= v@);
    while i < n
        invariant
            v@ == s@,
            p@ == pat@,
            n == v@.len(),
            m == p@.len(),
            m > 0,
            i <= n,
            out@ + replace_all_spec(v@.skip(i as int), p@, rep@) == replace_all_spec(v@, p@, rep@),
        decreases n - i,
    {
        let ghost rest = v@.skip(i as int);
        if n - i >= m && matches_at(&v, i, &p) {
            assert(rest.take(m as int) =~= v@.subrange(i as int, i + m));
            assert(rest.skip(m as int) =~= v@.skip(i + m));
            let ghost before = out@;
            out.append(rep);
            assert(out@ + replace_all_spec(v@.skip(i + m), p@, rep@) =~= before + replace_all_spec(
                rest,
                p@,
                rep@,
            ));
            i = i + m;
        } else {
            let ghost before = out@;
            push_char(&mut out, v[i]);
            if n - i >= m {
                assert(rest.take(m as int) =~= v@.subrange(i as int, i + m));
                assert(rest.drop_first() =~= v@.skip(i + 1));
                assert(out@ + replace_all_spec(v@.skip(i + 1), p@, rep@) =~= before
                    + replace_all_spec(rest, p@, rep@));
            } else {
                assert(rest.drop_first() =~= v@.skip(i + 1));
                assert(replace_all_spec(rest, p@, rep@) == rest);
                assert(replace_all_spec(v@.skip(i + 1), p@, rep@) == v@.skip(i + 1));
                assert(out@ + replace_all_spec(v@.skip(i + 1), p@, rep@) =~= before
                    + replace_all_spec(rest, p@, rep@));
            }
            i = i + 1;
        }
    }
    assert(v@.skip(n as int) =~= Seq::<char>::empty());
    assert(out@ + replace_all_spec(v@.skip(n as int), p@, rep@) =~= out@);
    out
}

/// The position of the last `c` in `s`, or -1 when there is none.
pub open spec fn last_index_of(s: Seq<char>, c: char) -> int
    decreases s.len(),
{
    if s.len() == 0 {
        -1
    } else if s.last() == c {
        s.len() - 1
    } else {
        last_index_of(s.drop_last(), c)
    }
}

/// `last_index_of` finds the last `c`: -1 when there is none, otherwise a
/// position holding `c` with no `c` after it.
pub proof fn lemma_last_index_of(s: Seq<char>, c: char)
    ensures
        -1 <= last_index_of(s, c) < s.len(),
        last_index_of(s, c) >= 0 ==> s[last_index_of(s, c)] == c,
        forall|j: int| last_index_of(s, c) < j < s.len() ==> s[j] != c,
    decreases s.len(),
{
    if s.len() > 0 && s.last() != c {
        lemma_last_index_of(s.drop_last(), c);
        assert forall|j: int| last_index_of(s, c) < j < s.len() implies s[j] != c by {
            if j < s.len() - 1 {
                assert(s.drop_last()[j] == s[j]);
            }
        }
    }
}

/// What follows the last `c` in `s` (`s[s.rfind(c)? + 1..]`); `None` when `s` holds no `c`.
pub fn after_last(s: &str, c: char) -> (r: Option<String>)
    ensures
        last_index_of(s@, c) < 0 ==> r is None,
        last_index_of(s@, c) >= 0 ==> (r matches Some(t) && t@ == s@.skip(last_index_of(s@, c) + 1)),
{
    let v = chars_of(s);
    let n = v.len();
    let mut i: usize = n;
    proof {
        lemma_last_index_of(s@, c);
    }
    while i > 0
        invariant
            v@ == s@,
            n == v@.len(),
            i <= n,
            forall|j: int| i <= j < n ==> v@[j] != c,
        decreases i,
    {
        if v[i - 1] == c {
            let ghost k = (i - 1) as int;
            proof {
                lemma_last_index_of(s@, c);
            }
            assert(last_index_of(s@, c) == k) by {
                if last_index_of(s@, c) > k {
                    assert(s@[last_index_of(s@, c)] == c);
                }
            }
            let mut t: Vec<char> = Vec::new();
            let mut j: usize = i;
            while j < n
                invariant
                    v@ == s@,
                    n == v@.len(),
                    i <= j <= n,
                    t@ == v@.subrange(i as int, j as int),
                decreases n - j,
            {
                t.push(v[j]);
                j = j + 1;
                assert(t@ =~= v@.subrange(i as int, j as int));
            }
            assert(t@ =~= s@.skip(k + 1));
            return Some(string_of(&t));
        }
        i = i - 1;
    }
    assert(last_index_of(s@, c) < 0) by {
        if last_index_of(s@, c) >= 0 {
            assert(s@[last_index_of(s@, c)] == c);
        }
    }
    None
}


proof fn lemma_nat_digits_value(n: nat)
    ensures
        nat_digits(n).len() > 0,
        all_digits(nat_digits(n)),
        digits_value(nat_digits(n)) == n,
    decreases n,
{
    let d = nat_digits(n);
    if n < 10 {
        assert(d.drop_last() =~= Seq::<char>::empty());
        assert(digit_char(n as int) as int == 48 + n);
        assert(d.last() == digit_char(n as int));
        assert(digits_value(d) == digits_value(d.drop_last()) * 10 + (d.last() as int - 48));
    } else {
        lemma_nat_digits_value(n / 10);
        let q = nat_digits(n / 10);
        assert(d.drop_last() =~= q);
        assert(digit_char((n % 10) as int) as int == 48 + n % 10);
        assert(d.last() == digit_char((n % 10) as int));
        assert(digits_value(d) == digits_value(q) * 10 + (d.last() as int - 48));
        assert((n / 10) * 10 + n % 10 == n);
        assert forall|i: int| 0 <= i < d.len() implies is_digit(#[trigger] d[i]) by {
            if i < q.len() {
                assert(d[i] == q[i]);
            }
        }
    }
}

/// Reading back the decimal text of a non-negative number gives the number:
/// `parse::<u64>` undoes `to_string`.
pub proof fn law_decimal_round_trip(n: int)
    requires
        0 <= n <= u64::MAX,
    ensures
        parse_u64_spec(int_decimal(n)) == Some(n as u64),
{
    lemma_nat_digits_value(n as nat);
    let d = nat_digits(n as nat);
    assert(d[0] != '+') by {
        assert(is_digit(d[0]));
    }
    assert(unsigned_body(d) == d);
}


/// Joining paths keeps the name whole at the end, replaces the base by an
/// absolute name, and otherwise keeps the base whole at the front with a '/'
/// right before the name when the base is not empty.
pub proof fn law_join_path_shape(base: Seq<char>, name: Seq<char>)
    ensures
        ({
            let r = join_path_spec(base, name);
            &&& r.len() >= name.len()
            &&& r.skip(r.len() - name.len()) == name
            &&& name.len() > 0 && name[0] == '/' ==> r == name
            &&& !(name.len() > 0 && name[0] == '/') ==> r.take(base.len() as int) == base
            &&& !(name.len() > 0 && name[0] == '/') && base.len() > 0 ==> r.len() == base.len()
                + name.len() + (if base.last() == '/' {
                0int
            } else {
                1int
            }) && r[r.len() - name.len() - 1] == '/'
        }),
{
    let r = join_path_spec(base, name);
    if name.len() > 0 && name[0] == '/' {
        assert(r.skip(0) =~= r);
    } else if base.len() > 0 && base.last() != '/' {
        assert(r.skip(r.len() - name.len()) =~= name);
        assert(r.take(base.len() as int) =~= base);
        assert(r[base.len() as int] == '/');
    } else {
        assert(r.skip(r.len() - name.len()) =~= name);
        assert(r.take(base.len() as int) =~= base);
        if base.len() > 0 {
            assert(r[base.len() - 1] == base.last());
        }
    }
}

} // verus!
