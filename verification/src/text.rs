//! Text as sequences of Unicode scalar values: equality, prefixes, the
//! dictionary order, and decimal numerals.

use vstd::prelude::*;

verus! {

/// The scalar values of `s`, in order.
pub fn chars_of(s: &str) -> (v: Vec<char>)
    ensures
        v@ == s@,
{
    let mut v: Vec<char> = Vec::new();
    for c in it: s.chars()
        invariant
            it.seq() == s@,
            v@ == s@.take(it.index() as int),
    {
        v.push(c);
    }
    v
}

/// Whether `a` and `b` hold the same text.
pub fn same_text(a: &str, b: &str) -> (r: bool)
    ensures
        r == (a@ == b@),
{
    let x = chars_of(a);
    let y = chars_of(b);
    if x.len() != y.len() {
        return false;
    }
    let mut i: usize = 0;
    while i < x.len()
        invariant
            x@ == a@,
            y@ == b@,
            x.len() == y.len(),
            i <= x.len(),
            a@.take(i as int) == b@.take(i as int),
        decreases x.len() - i,
    {
        if x[i] != y[i] {
            return false;
        }
        i += 1;
    }
    assert(a@ == a@.take(i as int));
    assert(b@ == b@.take(i as int));
    true
}

/// Whether `text` begins with `prefix`.
pub fn starts_with(text: &str, prefix: &str) -> (r: bool)
    ensures
        r == prefix@.is_prefix_of(text@),
{
    let t = chars_of(text);
    let p = chars_of(prefix);
    if p.len() > t.len() {
        return false;
    }
    let mut i: usize = 0;
    while i < p.len()
        invariant
            t@ == text@,
            p@ == prefix@,
            p.len() <= t.len(),
            i <= p.len(),
            prefix@.take(i as int) == text@.take(i as int),
        decreases p.len() - i,
    {
        if p[i] != t[i] {
            return false;
        }
        i += 1;
    }
    true
}

/// The dictionary order on text: at the first place where `a` and `b`
/// part, `a` has ended and `b` goes on, or `a` holds the smaller scalar
/// value.
pub open spec fn precedes(a: Seq<char>, b: Seq<char>) -> bool {
    exists|k: int| #[trigger] part_at(a, b, k) && precedes_at(a, b, k)
}

/// `a` and `b` agree on their first `k` places and not on the next: one of
/// them ends there, or the two hold different values.
pub open spec fn part_at(a: Seq<char>, b: Seq<char>, k: int) -> bool {
    &&& 0 <= k <= a.len()
    &&& k <= b.len()
    &&& a.take(k) == b.take(k)
    &&& k < a.len() && k < b.len() ==> a[k] != b[k]
}

/// What decides the order of two texts that part at `k`.
pub open spec fn precedes_at(a: Seq<char>, b: Seq<char>, k: int) -> bool {
    k < b.len() && (k == a.len() || (a[k] as int) < (b[k] as int))
}

/// Two texts part at one place only.
pub proof fn lemma_part_unique(a: Seq<char>, b: Seq<char>, i: int, j: int)
    requires
        part_at(a, b, i),
        part_at(a, b, j),
    ensures
        i == j,
{
    if i < j {
        assert(a[i] == a.take(j)[i]);
    }
    if j < i {
        assert(a[j] == a.take(i)[j]);
    }
}

/// Where two texts part decides their order, and whether they are equal.
pub proof fn lemma_order_at(a: Seq<char>, b: Seq<char>, k: int)
    requires
        part_at(a, b, k),
    ensures
        precedes(a, b) == precedes_at(a, b, k),
        precedes(b, a) == precedes_at(b, a, k),
        (a == b) == (k == a.len() && k == b.len()),
{
    assert(part_at(b, a, k));
    if precedes(a, b) {
        let i = choose|i: int| #[trigger] part_at(a, b, i) && precedes_at(a, b, i);
        lemma_part_unique(a, b, i, k);
    }
    if precedes(b, a) {
        let i = choose|i: int| #[trigger] part_at(b, a, i) && precedes_at(b, a, i);
        lemma_part_unique(b, a, i, k);
    }
    if k == a.len() && k == b.len() {
        assert(a == a.take(k));
        assert(b == b.take(k));
    }
}

/// No text comes before itself, and no two texts come before each other.
pub proof fn lemma_precedes_asymmetric(a: Seq<char>, b: Seq<char>)
    requires
        precedes(a, b),
    ensures
        !precedes(b, a),
        a != b,
{
    let k = choose|k: int| #[trigger] part_at(a, b, k) && precedes_at(a, b, k);
    lemma_order_at(a, b, k);
}

/// The order is transitive.
pub proof fn lemma_precedes_transitive(a: Seq<char>, b: Seq<char>, c: Seq<char>)
    requires
        precedes(a, b),
        precedes(b, c),
    ensures
        precedes(a, c),
{
    let i = choose|i: int| #[trigger] part_at(a, b, i) && precedes_at(a, b, i);
    let j = choose|j: int| #[trigger] part_at(b, c, j) && precedes_at(b, c, j);
    let k = if i <= j {
        i
    } else {
        j
    };
    assert(a.take(k) == c.take(k));
    if i < j {
        assert(b[i] == b.take(j)[i]);
    }
    if j < i {
        assert(a[j] == a.take(i)[j]);
    }
    assert(part_at(a, c, k) && precedes_at(a, c, k));
}

/// How two texts stand in the dictionary order.
#[derive(Clone, Copy, Debug, PartialEq, Eq, Structural)]
pub enum Standing {
    /// The first comes before the second.
    Before,
    /// The two are the same text.
    Same,
    /// The first comes after the second.
    After,
}

/// Compares `a` with `b` in the dictionary order.
pub fn compare(a: &str, b: &str) -> (r: Standing)
    ensures
        (r == Standing::Before) == precedes(a@, b@),
        (r == Standing::Same) == (a@ == b@),
        (r == Standing::After) == precedes(b@, a@),
{
    let x = chars_of(a);
    let y = chars_of(b);
    let mut i: usize = 0;
    while i < x.len() && i < y.len() && x[i] == y[i]
        invariant
            x@ == a@,
            y@ == b@,
            i <= x.len(),
            i <= y.len(),
            a@.take(i as int) == b@.take(i as int),
        decreases x.len() - i,
    {
        i += 1;
    }
    proof {
        lemma_order_at(a@, b@, i as int);
    }
    if i == x.len() {
        if i == y.len() {
            Standing::Same
        } else {
            Standing::Before
        }
    } else if i == y.len() {
        Standing::After
    } else if x[i] < y[i] {
        Standing::Before
    } else {
        Standing::After
    }
}

/// The character that writes the digit `d`.
pub open spec fn digit(d: int) -> char {
    (('0' as int) + d) as char
}

/// The decimal numeral of a natural number, without leading zeros.
pub open spec fn decimal(n: nat) -> Seq<char>
    decreases n,
{
    if n < 10 {
        seq![digit(n as int)]
    } else {
        decimal(n / 10).push(digit((n % 10) as int))
    }
}

/// The decimal numeral of an integer, with a minus sign below zero.
pub open spec fn numeral(i: int) -> Seq<char> {
    if i < 0 {
        seq!['-'] + decimal((-i) as nat)
    } else {
        decimal(i as nat)
    }
}

/// The text of one digit.
fn digit_text(d: u64) -> (r: &'static str)
    requires
        d < 10,
    ensures
        r@ == seq![digit(d as int)],
{
    proof {
        reveal_strlit("0");
        reveal_strlit("1");
        reveal_strlit("2");
        reveal_strlit("3");
        reveal_strlit("4");
        reveal_strlit("5");
        reveal_strlit("6");
        reveal_strlit("7");
        reveal_strlit("8");
        reveal_strlit("9");
    }
    let r = if d == 0 {
        "0"
    } else if d == 1 {
        "1"
    } else if d == 2 {
        "2"
    } else if d == 3 {
        "3"
    } else if d == 4 {
        "4"
    } else if d == 5 {
        "5"
    } else if d == 6 {
        "6"
    } else if d == 7 {
        "7"
    } else if d == 8 {
        "8"
    } else {
        "9"
    };
    r
}

/// Appends the decimal numeral of `n` to `out`.
fn append_decimal(out: &mut String, n: u64)
    ensures
        final(out)@ == old(out)@ + decimal(n as nat),
    decreases n,
{
    if n >= 10 {
        append_decimal(out, n / 10);
    }
    out.append(digit_text(n % 10));
}

/// Appends the decimal numeral of `value` to `out`.
pub fn append_numeral(out: &mut String, value: i32)
    ensures
        final(out)@ == old(out)@ + numeral(value as int),
{
    let wide: i64 = value as i64;
    if wide < 0 {
        proof {
            reveal_strlit("-");
        }
        out.append("-");
        append_decimal(out, (-wide) as u64);
    } else {
        append_decimal(out, wide as u64);
    }
}

} // verus!
