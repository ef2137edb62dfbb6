//! Text helpers: decimal and hexadecimal rendering and integer parsing.
use vstd::prelude::*;

verus! {

/// The ASCII digit for a value below ten.
pub open spec fn digit_char(d: nat) -> char {
    if d == 0 { '0' } else if d == 1 { '1' } else if d == 2 { '2' } else if d == 3 { '3' }
    else if d == 4 { '4' } else if d == 5 { '5' } else if d == 6 { '6' } else if d == 7 { '7' }
    else if d == 8 { '8' } else { '9' }
}

/// The decimal rendering of a natural number, without leading zeros.
pub open spec fn decimal(n: nat) -> Seq<char>
    decreases n,
{
    if n < 10 {
        seq![digit_char(n)]
    } else {
        decimal(n / 10).push(digit_char(n % 10))
    }
}

fn digit_of(d: u64) -> (c: char)
    requires
        d < 10,
    ensures
        c == digit_char(d as nat),
{
    if d == 0 { '0' } else if d == 1 { '1' } else if d == 2 { '2' } else if d == 3 { '3' }
    else if d == 4 { '4' } else if d == 5 { '5' } else if d == 6 { '6' } else if d == 7 { '7' }
    else if d == 8 { '8' } else { '9' }
}

/// Appends the decimal rendering of `n` to `out`.
pub fn push_decimal(out: &mut Vec<char>, n: u64)
    ensures
        final(out)@ == old(out)@ + decimal(n as nat),
    decreases n,
{
    if n < 10 {
        out.push(digit_of(n));
        assert(decimal(n as nat) == seq![digit_char(n as nat)]);
    } else {
        push_decimal(out, n / 10);
        out.push(digit_of(n % 10));
    }
}


/// Appends the decimal rendering of a signed number (a leading `-` when negative).
pub open spec fn signed_decimal(i: int) -> Seq<char> {
    if i < 0 {
        seq!['-'] + decimal((-i) as nat)
    } else {
        decimal(i as nat)
    }
}

/// Appends the decimal rendering of a signed number to `out`.
pub fn push_signed_decimal(out: &mut Vec<char>, i: i64)
    ensures
        final(out)@ == old(out)@ + signed_decimal(i as int),
{
    if i < 0 {
        out.push('-');
        let m: u64 = if i == i64::MIN { 9223372036854775808u64 } else { (-i) as u64 };
        push_decimal(out, m);
        assert(old(out)@.push('-') + decimal(m as nat) =~= old(out)@ + (seq!['-'] + decimal(m as nat)));
    } else {
        push_decimal(out, i as u64);
    }
}

/// The uppercase hexadecimal digit for a value below sixteen.
pub open spec fn hex_char(d: nat) -> char {
    if d < 10 { digit_char(d) } else if d == 10 { 'A' } else if d == 11 { 'B' } else if d == 12 { 'C' }
    else if d == 13 { 'D' } else if d == 14 { 'E' } else { 'F' }
}

/// A byte as two uppercase hexadecimal digits (`{:02X}`).
pub open spec fn hex2(b: u8) -> Seq<char> {
    seq![hex_char((b / 16) as nat), hex_char((b % 16) as nat)]
}

/// A 16-bit number as four uppercase hexadecimal digits (`{:04X}`).
pub open spec fn hex4(n: u16) -> Seq<char> {
    seq![
        hex_char((n / 4096) as nat),
        hex_char(((n / 256) % 16) as nat),
        hex_char(((n / 16) % 16) as nat),
        hex_char((n % 16) as nat),
    ]
}

/// The items of a byte list in hexadecimal, separated by `", "`.
pub open spec fn hex_items(s: Seq<u8>) -> Seq<char>
    decreases s.len(),
{
    if s.len() == 0 {
        seq![]
    } else if s.len() == 1 {
        hex2(s[0])
    } else {
        hex_items(s.drop_last()) + seq![',', ' '] + hex2(s.last())
    }
}

/// A byte list as `{:02X?}` renders it: `[0A, FF]`.
pub open spec fn hex_list(s: Seq<u8>) -> Seq<char> {
    seq!['['] + hex_items(s) + seq![']']
}

fn hex_of(d: u8) -> (c: char)
    requires
        d < 16,
    ensures
        c == hex_char(d as nat),
{
    if d < 10 { digit_of(d as u64) } else if d == 10 { 'A' } else if d == 11 { 'B' } else if d == 12 { 'C' }
    else if d == 13 { 'D' } else if d == 14 { 'E' } else { 'F' }
}

/// Appends a byte as two uppercase hexadecimal digits.
pub fn push_hex2(out: &mut Vec<char>, b: u8)
    ensures
        final(out)@ == old(out)@ + hex2(b),
{
    out.push(hex_of(b / 16));
    out.push(hex_of(b % 16));
    assert(final(out)@ =~= old(out)@ + hex2(b));
}

/// Appends a 16-bit number as four uppercase hexadecimal digits.
pub fn push_hex4(out: &mut Vec<char>, n: u16)
    ensures
        final(out)@ == old(out)@ + hex4(n),
{
    out.push(hex_of((n / 4096) as u8));
    out.push(hex_of(((n / 256) % 16) as u8));
    out.push(hex_of(((n / 16) % 16) as u8));
    out.push(hex_of((n % 16) as u8));
    assert(final(out)@ =~= old(out)@ + hex4(n));
}

/// Appends the `{:02X?}` rendering of a byte list.
pub fn push_hex_list(out: &mut Vec<char>, bytes: &[u8])
    ensures
        final(out)@ == old(out)@ + hex_list(bytes@),
{
    out.push('[');
    let ghost start = out@;
    let mut i: usize = 0;
    while i < bytes.len()
        invariant
            i <= bytes.len(),
            out@ == start + hex_items(bytes@.take(i as int)),
        decreases bytes.len() - i,
    {
        if i > 0 {
            out.push(',');
            out.push(' ');
        }
        push_hex2(out, bytes[i]);
        proof {
            let t = bytes@.take(i + 1);
            assert(t.drop_last() =~= bytes@.take(i as int));
            if i == 0 {
                assert(hex_items(bytes@.take(0)) =~= Seq::<char>::empty());
            }
        }
        i = i + 1;
    }
    out.push(']');
    assert(bytes@.take(bytes.len() as int) =~= bytes@);
    assert(final(out)@ =~= old(out)@ + hex_list(bytes@));
}

/// Builds a `String` from its characters (`String: FromIterator<char>`).
#[verifier::external_body]
pub(crate) fn string_from_chars(chars: &Vec<char>) -> (s: String)
    ensures
        s@ == chars@,
{
    chars.iter().collect()
}

/// The characters of a string slice.
pub fn chars_of(s: &str) -> (v: Vec<char>)
    ensures
        v@ == s@,
{
    let n = s.unicode_len();
    let mut v: Vec<char> = Vec::new();
    let mut i: usize = 0;
    while i < n
        invariant
            n == s@.len(),
            i <= n,
            v@ == s@.take(i as int),
        decreases n - i,
    {
        v.push(s.get_char(i));
        assert(s@.take(i + 1) =~= s@.take(i as int).push(s@[i as int]));
        i = i + 1;
    }
    assert(s@.take(n as int) =~= s@);
    v
}

/// Appends the characters of a string slice.
pub fn push_str(out: &mut Vec<char>, s: &str)
    ensures
        final(out)@ == old(out)@ + s@,
{
    let n = s.unicode_len();
    let mut i: usize = 0;
    while i < n
        invariant
            n == s@.len(),
            i <= n,
            out@ == old(out)@ + s@.take(i as int),
        decreases n - i,
    {
        out.push(s.get_char(i));
        assert(s@.take(i + 1) =~= s@.take(i as int).push(s@[i as int]));
        assert(old(out)@ + s@.take(i + 1) =~= (old(out)@ + s@.take(i as int)).push(s@[i as int]));
        i = i + 1;
    }
    assert(s@.take(n as int) =~= s@);
}

// ---------------------------------------------------------------------------
// Integer parsing, after the grammar `str::parse` documents for integers:
// an optional sign, then one or more ASCII digits, the value in range.
// ---------------------------------------------------------------------------

pub open spec fn is_digit(c: char) -> bool {
    '0' <= c && c <= '9'
}

pub open spec fn digit_value(c: char) -> nat {
    (c as int - '0' as int) as nat
}

pub open spec fn all_digits(s: Seq<char>) -> bool {
    forall|i: int| 0 <= i < s.len() ==> is_digit(#[trigger] s[i])
}

/// The value of a string of decimal digits.
pub open spec fn digits_value(s: Seq<char>) -> nat
    decreases s.len(),
{
    if s.len() == 0 {
        0
    } else {
        digits_value(s.drop_last()) * 10 + digit_value(s.last())
    }
}

/// What parsing `s` as an unsigned integer no greater than `max` gives:
/// an optional `+`, then at least one digit.
pub open spec fn parse_unsigned(s: Seq<char>, max: nat) -> Option<nat> {
    let body = if s.len() > 0 && s[0] == '+' { s.drop_first() } else { s };
    if body.len() > 0 && all_digits(body) && digits_value(body) <= max {
        Some(digits_value(body))
    } else {
        None
    }
}

/// What parsing `s` as a signed integer within `[min, max]` gives:
/// an optional `+` or `-`, then at least one digit.
pub open spec fn parse_signed(s: Seq<char>, min: int, max: int) -> Option<int> {
    if s.len() > 0 && s[0] == '-' {
        let body = s.drop_first();
        if body.len() > 0 && all_digits(body) && -(digits_value(body) as int) >= min {
            Some(-(digits_value(body) as int))
        } else {
            None
        }
    } else {
        match parse_unsigned(s, max as nat) {
            Some(v) => if max >= 0 { Some(v as int) } else { None },
            None => None,
        }
    }
}

proof fn lemma_digit_char(d: nat)
    requires
        d < 10,
    ensures
        is_digit(digit_char(d)),
        digit_value(digit_char(d)) == d,
{
}

/// The decimal rendering of `n` is a run of digits whose value is `n`.
pub proof fn lemma_decimal_digits(n: nat)
    ensures
        decimal(n).len() > 0,
        all_digits(decimal(n)),
        digits_value(decimal(n)) == n,
    decreases n,
{
    lemma_digit_char(n % 10);
    if n < 10 {
        assert(n % 10 == n);
        let d = decimal(n);
        assert(d.drop_last() =~= Seq::<char>::empty());
        assert(d.last() == digit_char(n));
        assert(digits_value(d) == digits_value(d.drop_last()) * 10 + digit_value(d.last()));
    } else {
        lemma_decimal_digits(n / 10);
        let d = decimal(n);
        assert(n == (n / 10) * 10 + n % 10);
        assert(d.last() == digit_char(n % 10));
        assert(digits_value(d) == digits_value(d.drop_last()) * 10 + digit_value(d.last()));
        assert(d.drop_last() =~= decimal(n / 10));
        assert forall|i: int| 0 <= i < d.len() implies is_digit(#[trigger] d[i]) by {
            if i < d.len() - 1 {
                assert(d[i] == decimal(n / 10)[i]);
            }
        }
    }
}

proof fn lemma_digits_value_monotone(s: Seq<char>, i: int)
    requires
        0 <= i <= s.len(),
        all_digits(s),
    ensures
        digits_value(s.take(i)) <= digits_value(s),
    decreases s.len() - i,
{
    if i < s.len() {
        lemma_digits_value_monotone(s, i + 1);
        assert(s.take(i + 1).drop_last() =~= s.take(i));
        assert(is_digit(s[i]));
    } else {
        assert(s.take(i) =~= s);
    }
}

/// Reads the digits of `s` from index `from` on; `None` when one is not a
/// digit, when there are none, or when the value exceeds `max`.
fn digits_from(s: &Vec<char>, from: usize, max: u64) -> (r: Option<u64>)
    requires
        from <= s.len(),
    ensures
        ({
            let body = s@.skip(from as int);
            match r {
                Some(v) => body.len() > 0 && all_digits(body) && digits_value(body) <= max
                    && v == digits_value(body),
                None => !(body.len() > 0 && all_digits(body) && digits_value(body) <= max),
            }
        }),
{
    let ghost body = s@.skip(from as int);
    if from == s.len() {
        return None;
    }
    let mut acc: u64 = 0;
    let mut i: usize = from;
    while i < s.len()
        invariant
            from <= i <= s.len(),
            body == s@.skip(from as int),
            all_digits(body.take(i - from)),
            acc == digits_value(body.take(i - from)),
            acc <= max,
        decreases s.len() - i,
    {
        let c = s[i];
        assert(c == body[i - from]);
        if !('0' <= c && c <= '9') {
            assert(!all_digits(body));
            return None;
        }
        let d = (c as u32 - '0' as u32) as u64;
        assert(body.take(i - from + 1).drop_last() =~= body.take(i - from));
        if d > max || acc > (max - d) / 10 {
            proof {
                assert(digits_value(body.take(i - from + 1)) == acc * 10 + d);
                assert(acc * 10 + d > max) by (nonlinear_arith)
                    requires d > max || acc > (max - d) / 10;
                if all_digits(body) {
                    lemma_digits_value_monotone(body, i - from + 1);
                }
            }
            return None;
        }
        assert(acc * 10 + d <= max) by (nonlinear_arith)
            requires acc <= (max - d) / 10, d <= max;
        acc = acc * 10 + d;
        i = i + 1;
    }
    assert(body.take(i - from) =~= body);
    Some(acc)
}


/// Parses an unsigned integer no greater than `max`, as `str::parse` does.
pub fn parse_unsigned_chars(s: &Vec<char>, max: u64) -> (r: Option<u64>)
    ensures
        match r {
            Some(v) => parse_unsigned(s@, max as nat) == Some(v as nat),
            None => parse_unsigned(s@, max as nat) is None,
        },
{
    if s.len() > 0 && s[0] == '+' {
        assert(s@.drop_first() =~= s@.skip(1));
        digits_from(s, 1, max)
    } else {
        assert(s@ =~= s@.skip(0));
        digits_from(s, 0, max)
    }
}

/// Parses a signed integer within `[-neg_limit, max]`, as `str::parse` does.
pub fn parse_signed_chars(s: &Vec<char>, neg_limit: u64, max: u64) -> (r: Option<i128>)
    ensures
        match r {
            Some(v) => parse_signed(s@, -(neg_limit as int), max as int) == Some(v as int),
            None => parse_signed(s@, -(neg_limit as int), max as int) is None,
        },
{
    if s.len() > 0 && s[0] == '-' {
        assert(s@.drop_first() =~= s@.skip(1));
        match digits_from(s, 1, neg_limit) {
            Some(v) => Some(-(v as i128)),
            None => None,
        }
    } else {
        match parse_unsigned_chars(s, max) {
            Some(v) => Some(v as i128),
            None => None,
        }
    }
}

// ---------------------------------------------------------------------------
// Ordering and searching of text
// ---------------------------------------------------------------------------

/// Lexicographic order on characters, the order of `str`'s `<`.
pub open spec fn seq_lt(a: Seq<char>, b: Seq<char>) -> bool
    decreases a.len(),
{
    if a.len() == 0 {
        b.len() > 0
    } else if b.len() == 0 {
        false
    } else if a[0] != b[0] {
        (a[0] as int) < (b[0] as int)
    } else {
        seq_lt(a.drop_first(), b.drop_first())
    }
}

/// No text is below itself.
pub proof fn lemma_seq_lt_irreflexive(a: Seq<char>)
    ensures
        !seq_lt(a, a),
    decreases a.len(),
{
    if a.len() > 0 {
        lemma_seq_lt_irreflexive(a.drop_first());
    }
}

/// Of two different texts, exactly one is below the other.
pub proof fn lemma_seq_lt_total(a: Seq<char>, b: Seq<char>)
    ensures
        a != b ==> (seq_lt(a, b) || seq_lt(b, a)),
        !(seq_lt(a, b) && seq_lt(b, a)),
    decreases a.len(),
{
    if a.len() > 0 && b.len() > 0 && a[0] == b[0] {
        lemma_seq_lt_total(a.drop_first(), b.drop_first());
        if a != b {
            assert(a.drop_first() != b.drop_first()) by {
                if a.drop_first() == b.drop_first() {
                    assert(a =~= seq![a[0]] + a.drop_first());
                    assert(b =~= seq![b[0]] + b.drop_first());
                }
            }
        }
    } else if a.len() == 0 && b.len() == 0 {
        assert(a =~= b);
    }
}

/// The order is transitive.
pub proof fn lemma_seq_lt_transitive(a: Seq<char>, b: Seq<char>, c: Seq<char>)
    requires
        seq_lt(a, b),
        seq_lt(b, c),
    ensures
        seq_lt(a, c),
    decreases a.len(),
{
    if a.len() > 0 && b.len() > 0 && c.len() > 0 && a[0] == b[0] && b[0] == c[0] {
        lemma_seq_lt_transitive(a.drop_first(), b.drop_first(), c.drop_first());
    }
}

/// Whether `a` is below `b` in the order of `str`'s `<`.
pub fn text_less(a: &str, b: &str) -> (r: bool)
    ensures
        r == seq_lt(a@, b@),
{
    let na = a.unicode_len();
    let nb = b.unicode_len();
    let mut i: usize = 0;
    assert(a@.skip(0) =~= a@ && b@.skip(0) =~= b@);
    while i < na && i < nb
        invariant
            na == a@.len(),
            nb == b@.len(),
            i <= na,
            i <= nb,
            seq_lt(a@, b@) == seq_lt(a@.skip(i as int), b@.skip(i as int)),
        decreases na - i,
    {
        let ca = a.get_char(i);
        let cb = b.get_char(i);
        let ghost sa = a@.skip(i as int);
        let ghost sb = b@.skip(i as int);
        assert(sa[0] == ca && sb[0] == cb);
        if ca != cb {
            return (ca as u32) < (cb as u32);
        }
        assert(sa.drop_first() =~= a@.skip(i + 1));
        assert(sb.drop_first() =~= b@.skip(i + 1));
        i = i + 1;
    }
    assert(a@.skip(i as int).len() == na - i);
    i == na && i < nb
}

/// `n` occurs in `h` at index `i`.
pub open spec fn occurs_at(h: Seq<char>, n: Seq<char>, i: int) -> bool {
    0 <= i && i + n.len() <= h.len() && h.subrange(i, i + n.len()) == n
}

/// `n` occurs somewhere in `h`, as `str::contains` finds it.
pub open spec fn contains_text(h: Seq<char>, n: Seq<char>) -> bool {
    exists|i: int| occurs_at(h, n, i)
}

/// Whether `n` occurs in `h` at index `i`.
fn matches_at(h: &str, n: &str, i: usize) -> (r: bool)
    requires
        i + n@.len() <= h@.len(),
    ensures
        r == occurs_at(h@, n@, i as int),
{
    let m = n.unicode_len();
    let hl = h.unicode_len();
    let mut j: usize = 0;
    while j < m
        invariant
            m == n@.len(),
            hl == h@.len(),
            i + m <= h@.len(),
            j <= m,
            forall|k: int| 0 <= k < j ==> h@[i + k] == n@[k],
        decreases m - j,
    {
        if h.get_char(i + j) != n.get_char(j) {
            assert(h@.subrange(i as int, i + m)[j as int] != n@[j as int]);
            return false;
        }
        j = j + 1;
    }
    assert(h@.subrange(i as int, i + m) =~= n@);
    true
}

/// Whether `n` occurs in `h` (`str::contains`).
pub fn text_contains(h: &str, n: &str) -> (r: bool)
    ensures
        r == contains_text(h@, n@),
{
    let hl = h.unicode_len();
    let nl = n.unicode_len();
    if nl > hl {
        return false;
    }
    let last = hl - nl;
    let mut i: usize = 0;
    loop
        invariant
            hl == h@.len(),
            nl == n@.len(),
            last == hl - nl,
            i <= last,
            forall|k: int| 0 <= k < i ==> !occurs_at(h@, n@, k),
        decreases last - i,
    {
        if matches_at(h, n, i) {
            return true;
        }
        if i == last {
            return false;
        }
        i = i + 1;
    }
}

// ---------------------------------------------------------------------------
// Sorting texts
// ---------------------------------------------------------------------------

/// `a` is not above `b` in the order of `str`'s `<`.
pub open spec fn text_leq() -> spec_fn(Seq<char>, Seq<char>) -> bool {
    |a: Seq<char>, b: Seq<char>| !seq_lt(b, a)
}

/// The characters of each string.
pub open spec fn string_views(v: Seq<String>) -> Seq<Seq<char>> {
    v.map_values(|s: String| s@)
}

/// `text_leq` is a total order.
pub proof fn lemma_text_leq_total_ordering()
    ensures
        vstd::relations::total_ordering(text_leq()),
{
    let r = text_leq();
    assert forall|x: Seq<char>| #[trigger] r(x, x) by {
        lemma_seq_lt_irreflexive(x);
    }
    assert forall|x: Seq<char>, y: Seq<char>| #[trigger] r(x, y) && #[trigger] r(y, x) implies x == y by {
        lemma_seq_lt_total(x, y);
    }
    assert forall|x: Seq<char>, y: Seq<char>, z: Seq<char>| #[trigger] r(x, y) && #[trigger] r(y, z) implies r(x, z) by {
        lemma_seq_lt_total(x, y);
        lemma_seq_lt_total(y, z);
        lemma_seq_lt_total(x, z);
        if seq_lt(z, x) {
            if x == y {
                assert(seq_lt(z, y));
            } else if y == z {
                assert(seq_lt(y, x));
            } else {
                lemma_seq_lt_transitive(x, y, z);
            }
        }
    }
    assert forall|x: Seq<char>, y: Seq<char>| #[trigger] r(x, y) || #[trigger] r(y, x) by {
        lemma_seq_lt_total(x, y);
    }
}

/// Sorts strings in the order of `str`'s `<`, keeping equal strings in
/// their order (what `sort` does on a `Vec<String>`).
pub fn sort_texts(v: Vec<String>) -> (r: Vec<String>)
    ensures
        string_views(r@) == string_views(v@).sort_by(text_leq()),
{
    broadcast use vstd::seq_lib::group_to_multiset_ensures;
    let mut r: Vec<String> = Vec::new();
    let mut i: usize = 0;
    proof {
        lemma_text_leq_total_ordering();
    }
    while i < v.len()
        invariant
            i <= v@.len(),
            vstd::relations::total_ordering(text_leq()),
            vstd::relations::sorted_by(string_views(r@), text_leq()),
            string_views(r@).to_multiset() == string_views(v@).take(i as int).to_multiset(),
        decreases v@.len() - i,
    {
        let x = &v[i];
        let ghost before = string_views(r@);
        let mut p: usize = 0;
        while p < r.len() && !text_less(x.as_str(), r[p].as_str())
            invariant
                p <= r@.len(),
                before == string_views(r@),
                forall|k: int| 0 <= k < p ==> !seq_lt(x@, #[trigger] before[k]),
            decreases r@.len() - p,
        {
            p = p + 1;
        }
        r.insert(p, x.clone());
        proof {
            let after = string_views(r@);
            assert(after =~= before.insert(p as int, x@));
            let leq = text_leq();
            assert forall|a: int, b: int| 0 <= a < b < after.len() implies #[trigger] leq(after[a], after[b]) by {
                if b < p {
                } else if a < p && b == p {
                    assert(!seq_lt(x@, before[a]));
                } else if a < p && b > p {
                    assert(leq(before[a], before[b - 1]));
                } else if a == p {
                    assert(seq_lt(x@, before[p as int]));
                    assert(leq(before[p as int], before[b - 1]) || b - 1 == p);
                    lemma_seq_lt_total(x@, before[p as int]);
                    assert(leq(x@, before[p as int]));
                } else {
                    assert(leq(before[a - 1], before[b - 1]));
                }
            }
            assert(string_views(v@)[i as int] == x@);
            assert(string_views(v@).take(i + 1) =~= string_views(v@).take(i as int).push(x@));
            vstd::seq_lib::to_multiset_insert(before, p as int, x@);
            vstd::seq_lib::to_multiset_build(string_views(v@).take(i as int), x@);
        }
        i = i + 1;
    }
    proof {
        assert(string_views(v@).take(v@.len() as int) =~= string_views(v@));
        string_views(v@).lemma_sort_by_ensures(text_leq());
        vstd::seq_lib::lemma_sorted_unique(string_views(r@), string_views(v@).sort_by(text_leq()), text_leq());
    }
    r
}

/// Whether two texts are equal.
pub fn text_equal(a: &str, b: &str) -> (r: bool)
    ensures
        r == (a@ == b@),
{
    let n = a.unicode_len();
    if n != b.unicode_len() {
        return false;
    }
    let mut i: usize = 0;
    while i < n
        invariant
            n == a@.len(),
            n == b@.len(),
            i <= n,
            forall|k: int| 0 <= k < i ==> a@[k] == b@[k],
        decreases n - i,
    {
        if a.get_char(i) != b.get_char(i) {
            return false;
        }
        i = i + 1;
    }
    assert(a@ =~= b@);
    true
}

// ---------------------------------------------------------------------------
// Trimming and hexadecimal parsing
// ---------------------------------------------------------------------------

/// The Unicode `White_Space` characters, those `char::is_whitespace` accepts.
pub open spec fn is_space(c: char) -> bool {
    let v = c as u32;
    ||| (0x09 <= v && v <= 0x0D)
    ||| v == 0x20
    ||| v == 0x85
    ||| v == 0xA0
    ||| v == 0x1680
    ||| (0x2000 <= v && v <= 0x200A)
    ||| v == 0x2028
    ||| v == 0x2029
    ||| v == 0x202F
    ||| v == 0x205F
    ||| v == 0x3000
}

/// Whether `c` is white space.
pub fn is_space_char(c: char) -> (b: bool)
    ensures
        b == is_space(c),
{
    let v = c as u32;
    (0x09 <= v && v <= 0x0D) || v == 0x20 || v == 0x85 || v == 0xA0 || v == 0x1680 || (0x2000 <= v && v
        <= 0x200A) || v == 0x2028 || v == 0x2029 || v == 0x202F || v == 0x205F || v == 0x3000
}

/// The index of the first character of `s` that is not white space.
pub open spec fn trim_start_at(s: Seq<char>) -> int
    decreases s.len(),
{
    if s.len() == 0 || !is_space(s[0]) {
        0
    } else {
        1 + trim_start_at(s.drop_first())
    }
}

/// The index after the last character of `s` that is not white space.
pub open spec fn trim_end_at(s: Seq<char>) -> int
    decreases s.len(),
{
    if s.len() == 0 || !is_space(s.last()) {
        s.len() as int
    } else {
        trim_end_at(s.drop_last())
    }
}

/// `s` without its leading and trailing white space (`str::trim`).
pub open spec fn trimmed(s: Seq<char>) -> Seq<char> {
    let a = trim_start_at(s);
    let b = trim_end_at(s);
    if a >= b {
        Seq::empty()
    } else {
        s.subrange(a, b)
    }
}

proof fn lemma_trim_start_at(s: Seq<char>)
    ensures
        0 <= trim_start_at(s) <= s.len(),
        forall|k: int| 0 <= k < trim_start_at(s) ==> is_space(#[trigger] s[k]),
        trim_start_at(s) < s.len() ==> !is_space(s[trim_start_at(s)]),
    decreases s.len(),
{
    if s.len() > 0 && is_space(s[0]) {
        lemma_trim_start_at(s.drop_first());
        assert forall|k: int| 0 <= k < trim_start_at(s) implies is_space(#[trigger] s[k]) by {
            if k > 0 {
                assert(s[k] == s.drop_first()[k - 1]);
            }
        }
    }
}

proof fn lemma_trim_end_at(s: Seq<char>)
    ensures
        0 <= trim_end_at(s) <= s.len(),
        forall|k: int| trim_end_at(s) <= k < s.len() ==> is_space(#[trigger] s[k]),
        trim_end_at(s) > 0 ==> !is_space(s[trim_end_at(s) - 1]),
    decreases s.len(),
{
    if s.len() > 0 && is_space(s.last()) {
        lemma_trim_end_at(s.drop_last());
        assert forall|k: int| trim_end_at(s) <= k < s.len() implies is_space(#[trigger] s[k]) by {
            if k < s.len() - 1 {
                assert(s[k] == s.drop_last()[k]);
            }
        }
    }
}

/// The index of the first character that is not white space.
fn first_non_space(s: &Vec<char>) -> (a: usize)
    ensures
        a == trim_start_at(s@),
{
    let mut i: usize = 0;
    assert(s@.skip(0) =~= s@);
    while i < s.len() && is_space_char(s[i])
        invariant
            i <= s@.len(),
            trim_start_at(s@) == i + trim_start_at(s@.skip(i as int)),
        decreases s@.len() - i,
    {
        assert(s@.skip(i + 1) =~= s@.skip(i as int).drop_first());
        i = i + 1;
    }
    i
}

/// The index after the last character that is not white space.
fn end_non_space(s: &Vec<char>) -> (b: usize)
    ensures
        b == trim_end_at(s@),
{
    let mut j: usize = s.len();
    assert(s@.take(j as int) =~= s@);
    while j > 0 && is_space_char(s[j - 1])
        invariant
            j <= s@.len(),
            trim_end_at(s@) == trim_end_at(s@.take(j as int)),
        decreases j,
    {
        assert(s@.take(j - 1) =~= s@.take(j as int).drop_last());
        j = j - 1;
    }
    j
}

/// `s` without its leading and trailing white space (`str::trim`).
pub fn trim_text(s: &str) -> (r: Vec<char>)
    ensures
        r@ == trimmed(s@),
{
    let chars = chars_of(s);
    proof {
        assert(s@.skip(0) =~= s@);
    }
    let a = first_non_space(&chars);
    let b = end_non_space(&chars);
    proof {
        lemma_trim_start_at(s@);
        lemma_trim_end_at(s@);
    }
    let mut r: Vec<char> = Vec::new();
    if a >= b {
        return r;
    }
    let mut i: usize = a;
    while i < b
        invariant
            a <= i <= b,
            b <= chars@.len(),
            r@ == chars@.subrange(a as int, i as int),
        decreases b - i,
    {
        r.push(chars[i]);
        assert(chars@.subrange(a as int, i + 1) =~= chars@.subrange(a as int, i as int).push(chars@[i as int]));
        i = i + 1;
    }
    r
}

/// `s` with every leading copy of `p` removed (`str::trim_start_matches`
/// with a string pattern).
pub open spec fn strip_prefixes(s: Seq<char>, p: Seq<char>) -> Seq<char>
    decreases s.len(),
{
    if p.len() > 0 && s.len() >= p.len() && s.take(p.len() as int) == p {
        strip_prefixes(s.skip(p.len() as int), p)
    } else {
        s
    }
}

/// The value of a hexadecimal digit.
pub open spec fn hex_value(c: char) -> Option<nat> {
    if '0' <= c && c <= '9' {
        Some((c as u32 - '0' as u32) as nat)
    } else if 'a' <= c && c <= 'f' {
        Some((c as u32 - 'a' as u32 + 10) as nat)
    } else if 'A' <= c && c <= 'F' {
        Some((c as u32 - 'A' as u32 + 10) as nat)
    } else {
        None
    }
}

/// The value of a run of hexadecimal digits, if every character is one.
pub open spec fn hex_digits_value(s: Seq<char>) -> Option<nat>
    decreases s.len(),
{
    if s.len() == 0 {
        Some(0)
    } else {
        match (hex_digits_value(s.drop_last()), hex_value(s.last())) {
            (Some(a), Some(d)) => Some(a * 16 + d),
            _ => None,
        }
    }
}

/// What `u16::from_str_radix(s, 16)` gives: an optional `+`, then one or
/// more hexadecimal digits whose value fits in 16 bits.
pub open spec fn parse_hex_u16(s: Seq<char>) -> Option<u16> {
    let d = if s.len() > 0 && s[0] == '+' { s.drop_first() } else { s };
    if d.len() == 0 {
        None
    } else {
        match hex_digits_value(d) {
            Some(v) => if v <= 0xFFFF {
                Some(v as u16)
            } else {
                None
            },
            None => None,
        }
    }
}

proof fn lemma_hex_value_grows(s: Seq<char>, i: int)
    requires
        0 <= i <= s.len(),
        hex_digits_value(s) is Some,
    ensures
        hex_digits_value(s.take(i)) is Some,
        hex_digits_value(s.take(i))->0 <= hex_digits_value(s)->0,
    decreases s.len(),
{
    if i < s.len() {
        assert(s.drop_last().take(i) =~= s.take(i));
        lemma_hex_value_grows(s.drop_last(), i);
    } else {
        assert(s.take(i) =~= s);
    }
}

/// The hexadecimal value of `s`, as `u16::from_str_radix(s, 16)` reads it.
pub fn hex_u16(s: &Vec<char>) -> (r: Option<u16>)
    ensures
        r == parse_hex_u16(s@),
{
    let mut start: usize = 0;
    if s.len() > 0 && s[0] == '+' {
        start = 1;
    }
    let ghost d = if s@.len() > 0 && s@[0] == '+' { s@.drop_first() } else { s@ };
    assert(d =~= s@.skip(start as int));
    if start == s.len() {
        return None;
    }
    let mut v: u32 = 0;
    let mut i: usize = start;
    while i < s.len()
        invariant
            start <= i <= s@.len(),
            d == s@.skip(start as int),
            d == (if s@.len() > 0 && s@[0] == '+' { s@.drop_first() } else { s@ }),
            hex_digits_value(d.take(i - start)) == Some(v as nat),
            v <= 0xFFFF,
        decreases s@.len() - i,
    {
        let c = s[i];
        let digit: u32 = if '0' <= c && c <= '9' {
            (c as u32) - ('0' as u32)
        } else if 'a' <= c && c <= 'f' {
            (c as u32) - ('a' as u32) + 10
        } else if 'A' <= c && c <= 'F' {
            (c as u32) - ('A' as u32) + 10
        } else {
            proof {
                assert(hex_value(c) is None);
                assert(d.take(i - start + 1).drop_last() =~= d.take(i - start));
                assert(d.take(i - start + 1).last() == c);
                assert(hex_digits_value(d.take(i - start + 1)) is None);
                if hex_digits_value(d) is Some {
                    lemma_hex_value_grows(d, i - start + 1);
                }
                assert(hex_digits_value(d) is None);
                assert(d.len() > 0);
            }
            return None;
        };
        proof {
            assert(hex_value(c) == Some(digit as nat));
            assert(d.take(i - start + 1).drop_last() =~= d.take(i - start));
            assert(d.take(i - start + 1).last() == c);
            assert(hex_digits_value(d.take(i - start + 1)) == Some((v * 16 + digit) as nat));
        }
        let next = v * 16 + digit;
        if next > 0xFFFF {
            proof {
                if hex_digits_value(d) is Some {
                    lemma_hex_value_grows(d, i - start + 1);
                }
            }
            return None;
        }
        v = next;
        i = i + 1;
    }
    assert(d.take(i - start) =~= d);
    Some(v as u16)
}

/// `s` with every leading copy of `p` removed.
pub fn strip_prefixes_of(s: &Vec<char>, p: &str) -> (r: Vec<char>)
    ensures
        r@ == strip_prefixes(s@, p@),
{
    let m = p.unicode_len();
    let n = s.len();
    let mut start: usize = 0;
    if m == 0 {
        return s.clone();
    }
    assert(s@.skip(0) =~= s@);
    loop
        invariant
            m == p@.len(),
            m > 0,
            n == s@.len(),
            start <= s@.len(),
            strip_prefixes(s@, p@) == strip_prefixes(s@.skip(start as int), p@),
        ensures
            start <= s@.len(),
            strip_prefixes(s@, p@) == s@.skip(start as int),
        decreases s@.len() - start,
    {
        let rest_len = s.len() - start;
        let mut matches = rest_len >= m;
        let mut k: usize = 0;
        while matches && k < m
            invariant
                m == p@.len(),
                n == s@.len(),
                start <= s@.len(),
                rest_len == s@.len() - start,
                k <= m,
                matches ==> rest_len >= m && forall|j: int| 0 <= j < k ==> s@[start + j] == p@[j],
                !matches ==> !(rest_len >= m && s@.skip(start as int).take(m as int) == p@),
            decreases m - k,
        {
            assert(start + k < s@.len());
            if s[start + k] != p.get_char(k) {
                matches = false;
                proof {
                    if rest_len >= m && s@.skip(start as int).take(m as int) == p@ {
                        assert(s@.skip(start as int).take(m as int)[k as int] == s@[start + k]);
                    }
                }
            }
            k = k + 1;
        }
        if !matches {
            proof {
                assert(s@.skip(start as int).len() == rest_len);
            }
            break;
        }
        assert(s@.skip(start as int).take(m as int) =~= p@);
        assert(s@.skip(start as int).skip(m as int) =~= s@.skip(start + m));
        start = start + m;
    }
    let mut r: Vec<char> = Vec::new();
    let mut i: usize = start;
    while i < s.len()
        invariant
            start <= i <= s@.len(),
            r@ == s@.subrange(start as int, i as int),
        decreases s@.len() - i,
    {
        r.push(s[i]);
        assert(s@.subrange(start as int, i + 1) =~= s@.subrange(start as int, i as int).push(s@[i as int]));
        i = i + 1;
    }
    assert(s@.subrange(start as int, s@.len() as int) =~= s@.skip(start as int));
    r
}

// ---------------------------------------------------------------------------
// The grammar `f64::from_str` accepts
// ---------------------------------------------------------------------------

/// The index after the run of ASCII digits that starts at `i`.
pub open spec fn digit_run(s: Seq<char>, i: int) -> int
    decreases s.len() - i,
{
    if 0 <= i < s.len() && is_digit(s[i]) {
        digit_run(s, i + 1)
    } else {
        i
    }
}

/// An exponent (`e` or `E`, an optional sign, digits) from `pos` to the end,
/// or nothing at all.
pub open spec fn exponent_ok(s: Seq<char>, pos: int) -> bool {
    if pos == s.len() {
        true
    } else if 0 <= pos < s.len() && (s[pos] == 'e' || s[pos] == 'E') {
        let p = if pos + 1 < s.len() && (s[pos + 1] == '+' || s[pos + 1] == '-') {
            pos + 2
        } else {
            pos + 1
        };
        digit_run(s, p) > p && digit_run(s, p) == s.len()
    } else {
        false
    }
}

/// A decimal number: digits, digits and a point, a point and digits, or
/// digits around a point, then an optional exponent.
pub open spec fn number_ok(s: Seq<char>) -> bool {
    let a = digit_run(s, 0);
    if a < s.len() && s[a] == '.' {
        let c = digit_run(s, a + 1);
        (a > 0 || c > a + 1) && exponent_ok(s, c)
    } else {
        a > 0 && exponent_ok(s, a)
    }
}

/// ASCII letters in lower case.
pub open spec fn ascii_lower(c: char) -> char {
    if 'A' <= c && c <= 'Z' {
        ((c as u8) + 32) as char
    } else {
        c
    }
}

/// The special values, in any case: `inf`, `infinity`, `nan`.
pub open spec fn special_float(s: Seq<char>) -> bool {
    let l = s.map_values(|c: char| ascii_lower(c));
    l == "inf"@ || l == "infinity"@ || l == "nan"@
}

/// The texts `str::parse::<f64>` accepts, after its documented grammar: an
/// optional sign, then a special value or a decimal number. Values out of
/// range read as infinities, so the grammar alone decides.
pub open spec fn float_syntax(s: Seq<char>) -> bool {
    let b = if s.len() > 0 && (s[0] == '+' || s[0] == '-') {
        s.drop_first()
    } else {
        s
    };
    special_float(b) || number_ok(b)
}

/// The index after the run of digits from `i`.
fn digits_end(s: &Vec<char>, i: usize) -> (j: usize)
    requires
        i <= s@.len(),
    ensures
        j == digit_run(s@, i as int),
        i <= j <= s@.len(),
{
    let mut j = i;
    while j < s.len() && '0' <= s[j] && s[j] <= '9'
        invariant
            i <= j <= s@.len(),
            digit_run(s@, i as int) == digit_run(s@, j as int),
        decreases s@.len() - j,
    {
        j = j + 1;
    }
    j
}

/// Whether the characters spell `word`, ignoring ASCII case.
fn lower_equals(s: &Vec<char>, word: &str) -> (b: bool)
    requires
        forall|k: int| 0 <= k < word@.len() ==> ascii_lower(#[trigger] word@[k]) == word@[k],
    ensures
        b == (s@.map_values(|c: char| ascii_lower(c)) == word@),
{
    let ghost l = s@.map_values(|c: char| ascii_lower(c));
    let n = word.unicode_len();
    if s.len() != n {
        assert(l.len() != word@.len());
        return false;
    }
    let mut i: usize = 0;
    while i < n
        invariant
            n == word@.len(),
            n == s@.len(),
            l == s@.map_values(|c: char| ascii_lower(c)),
            i <= n,
            forall|k: int| 0 <= k < i ==> l[k] == word@[k],
        decreases n - i,
    {
        let c = s[i];
        let lc = if 'A' <= c && c <= 'Z' { ((c as u8) + 32) as char } else { c };
        assert(l[i as int] == lc);
        if lc != word.get_char(i) {
            return false;
        }
        i = i + 1;
    }
    assert(l =~= word@);
    true
}

/// Whether `str::parse::<f64>` accepts the text.
pub fn is_float_text(text: &str) -> (b: bool)
    ensures
        b == float_syntax(text@),
{
    let all = chars_of(text);
    let mut s: Vec<char> = Vec::new();
    let mut i: usize = if all.len() > 0 && (all[0] == '+' || all[0] == '-') { 1 } else { 0 };
    let start = i;
    while i < all.len()
        invariant
            start <= i <= all@.len(),
            s@ == all@.subrange(start as int, i as int),
        decreases all@.len() - i,
    {
        s.push(all[i]);
        assert(all@.subrange(start as int, i + 1) =~= all@.subrange(start as int, i as int).push(all@[i as int]));
        i = i + 1;
    }
    proof {
        if start == 1 {
            assert(s@ =~= text@.drop_first());
        } else {
            assert(s@ =~= text@);
        }
        reveal_strlit("inf");
        reveal_strlit("infinity");
        reveal_strlit("nan");
    }
    if lower_equals(&s, "inf") || lower_equals(&s, "infinity") || lower_equals(&s, "nan") {
        return true;
    }
    let a = digits_end(&s, 0);
    let (ok, c) = if a < s.len() && s[a] == '.' {
        let c = digits_end(&s, a + 1);
        (a > 0 || c > a + 1, c)
    } else {
        (a > 0, a)
    };
    if !ok {
        return false;
    }
    if c == s.len() {
        return true;
    }
    if s[c] != 'e' && s[c] != 'E' {
        return false;
    }
    let p = if c + 1 < s.len() && (s[c + 1] == '+' || s[c + 1] == '-') { c + 2 } else { c + 1 };
    let d = digits_end(&s, p);
    d > p && d == s.len()
}

} // verus!
