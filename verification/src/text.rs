//! Strings as sequences of characters: search, order, decimal numerals and
//! joining. Every function here is stated over the character view of its
//! arguments.

use vstd::prelude::*;
use vstd::std_specs::iter::IteratorSpec;
use vstd::string::StringExecFns;

verus! {

/// The views of a sequence of strings, in the same order.
pub open spec fn views(names: Seq<String>) -> Seq<Seq<char>> {
    names.map_values(|s: String| s@)
}

/// The characters of `s`, in order.
pub fn chars_of(s: &str) -> (v: Vec<char>)
    ensures
        v@ == s@,
{
    let mut v: Vec<char> = Vec::new();
    for c in it: s.chars()
        invariant
            v@ == s@.take(it.index() as int),
            it.seq() == s@,
    {
        v.push(c);
    }
    v
}

/// `pat` occurs in `s` starting at position `i`.
pub open spec fn occurs_at(s: Seq<char>, pat: Seq<char>, i: int) -> bool {
    0 <= i && i + pat.len() <= s.len() && s.subrange(i, i + pat.len()) == pat
}

/// `pat` occurs somewhere in `s` as a contiguous run of characters.
pub open spec fn occurs_in(s: Seq<char>, pat: Seq<char>) -> bool {
    exists|i: int| occurs_at(s, pat, i)
}

fn matches_at(s: &Vec<char>, pat: &Vec<char>, i: usize) -> (hit: bool)
    requires
        i + pat.len() <= s.len(),
    ensures
        hit == occurs_at(s@, pat@, i as int),
{
    let mut j: usize = 0;
    while j < pat.len()
        invariant
            j <= pat.len(),
            i + pat.len() <= s.len(),
            forall|k: int| 0 <= k < j ==> s@[i + k] == pat@[k],
        decreases pat.len() - j,
    {
        if s[i + j] != pat[j] {
            proof {
                let window = s@.subrange(i as int, i + pat.len());
                assert(window[j as int] == s@[i + j]);
            }
            return false;
        }
        j += 1;
    }
    assert(s@.subrange(i as int, i + pat.len()) =~= pat@);
    true
}

/// Whether `pat` occurs in `s`.
pub fn contains(s: &str, pat: &str) -> (found: bool)
    ensures
        found == occurs_in(s@, pat@),
{
    let text = chars_of(s);
    let word = chars_of(pat);
    if word.len() > text.len() {
        return false;
    }
    let last: usize = text.len() - word.len();
    let mut i: usize = 0;
    loop
        invariant
            text@ == s@,
            word@ == pat@,
            word.len() <= text.len(),
            last == text.len() - word.len(),
            i <= last,
            forall|k: int| 0 <= k < i ==> !occurs_at(s@, pat@, k),
        decreases last - i,
    {
        if matches_at(&text, &word, i) {
            return true;
        }
        if i == last {
            return false;
        }
        i += 1;
    }
}

/// The dictionary order on strings: `a` comes strictly before `b` when,
/// at the first position where they differ, `a` has ended or holds the
/// smaller character.
pub open spec fn precedes(a: Seq<char>, b: Seq<char>) -> bool
    decreases a.len(),
{
    if b.len() == 0 {
        false
    } else if a.len() == 0 {
        true
    } else if a[0] == b[0] {
        precedes(a.drop_first(), b.drop_first())
    } else {
        (a[0] as u32) < (b[0] as u32)
    }
}

/// No string comes before itself.
pub proof fn lemma_precedes_irreflexive(a: Seq<char>)
    ensures
        !precedes(a, a),
    decreases a.len(),
{
    if a.len() > 0 {
        lemma_precedes_irreflexive(a.drop_first());
    }
}

/// The order is transitive.
pub proof fn lemma_precedes_transitive(a: Seq<char>, b: Seq<char>, c: Seq<char>)
    requires
        precedes(a, b),
        precedes(b, c),
    ensures
        precedes(a, c),
    decreases a.len(),
{
    if a.len() > 0 && a[0] == b[0] && b[0] == c[0] {
        lemma_precedes_transitive(a.drop_first(), b.drop_first(), c.drop_first());
    }
}

/// Of two different strings one comes before the other.
pub proof fn lemma_precedes_total(a: Seq<char>, b: Seq<char>)
    ensures
        a == b || precedes(a, b) || precedes(b, a),
    decreases a.len(),
{
    if a.len() > 0 && b.len() > 0 && a[0] == b[0] {
        lemma_precedes_total(a.drop_first(), b.drop_first());
        if a.drop_first() == b.drop_first() {
            assert(a =~= seq![a[0]] + a.drop_first());
            assert(b =~= seq![b[0]] + b.drop_first());
        }
    } else if a.len() == 0 && b.len() == 0 {
        assert(a =~= b);
    } else if a.len() > 0 && b.len() > 0 {
        lemma_char_code_injective(a[0], b[0]);
    }
}

/// Different characters have different code points.
proof fn lemma_char_code_injective(c: char, d: char)
    ensures
        c != d ==> (c as u32) != (d as u32),
{
    assert((c as u32) as char == c);
    assert((d as u32) as char == d);
}

/// Skipping a common prefix does not change the order of two strings.
proof fn lemma_precedes_skip(a: Seq<char>, b: Seq<char>, n: int)
    requires
        0 <= n <= a.len(),
        n <= b.len(),
        a.take(n) == b.take(n),
    ensures
        precedes(a, b) == precedes(a.skip(n), b.skip(n)),
    decreases n,
{
    if n == 0 {
        assert(a.skip(0) =~= a);
        assert(b.skip(0) =~= b);
    } else {
        assert(a.take(n)[0] == a[0]);
        assert(b.take(n)[0] == b[0]);
        assert(a[0] == b[0]);
        assert(a.drop_first().take(n - 1) =~= a.take(n).drop_first());
        assert(b.drop_first().take(n - 1) =~= b.take(n).drop_first());
        lemma_precedes_skip(a.drop_first(), b.drop_first(), n - 1);
        assert(a.drop_first().skip(n - 1) =~= a.skip(n));
        assert(b.drop_first().skip(n - 1) =~= b.skip(n));
    }
}

/// Whether `a` comes strictly before `b` in dictionary order.
pub fn comes_before(a: &str, b: &str) -> (r: bool)
    ensures
        r == precedes(a@, b@),
{
    let x = chars_of(a);
    let y = chars_of(b);
    let mut i: usize = 0;
    while i < x.len() && i < y.len() && x[i] == y[i]
        invariant
            x@ == a@,
            y@ == b@,
            i <= x.len(),
            i <= y.len(),
            a@.take(i as int) == b@.take(i as int),
        decreases x.len() - i,
    {
        assert(a@.take(i + 1) =~= a@.take(i as int).push(a@[i as int]));
        assert(b@.take(i + 1) =~= b@.take(i as int).push(b@[i as int]));
        i += 1;
    }
    proof {
        lemma_precedes_skip(a@, b@, i as int);
    }
    if i == y.len() {
        false
    } else if i == x.len() {
        true
    } else {
        (x[i] as u32) < (y[i] as u32)
    }
}

/// Every string of `names` comes strictly before all that follow it.
pub open spec fn ascending(names: Seq<Seq<char>>) -> bool {
    forall|i: int, j: int| 0 <= i < j < names.len() ==> precedes(names[i], names[j])
}

/// A strictly ascending sequence is fixed by the set of its elements.
pub proof fn lemma_ascending_unique(a: Seq<Seq<char>>, b: Seq<Seq<char>>)
    requires
        ascending(a),
        ascending(b),
        a.to_set() == b.to_set(),
    ensures
        a == b,
    decreases a.len(),
{
    if a.len() == 0 {
        if b.len() > 0 {
            assert(b.contains(b[0]));
            assert(b.to_set().contains(b[0]));
            assert(a.contains(b[0]));
        }
        assert(a =~= b);
    } else if b.len() == 0 {
        assert(a.contains(a[0]));
        assert(a.to_set().contains(a[0]));
        assert(b.contains(a[0]));
    } else {
        // The two heads are equal: each is the least element of the common set.
        assert(a.contains(a[0]));
        assert(a.to_set().contains(a[0]));
        assert(b.contains(a[0]));
        let ib = choose|i: int| 0 <= i < b.len() && b[i] == a[0];
        assert(b.contains(b[0]));
        assert(b.to_set().contains(b[0]));
        assert(a.contains(b[0]));
        let ia = choose|i: int| 0 <= i < a.len() && a[i] == b[0];
        if ib > 0 && ia > 0 {
            lemma_precedes_transitive(b[0], a[0], b[0]);
            lemma_precedes_irreflexive(b[0]);
        }
        if ib > 0 {
            lemma_precedes_irreflexive(a[0]);
        }
        if ia > 0 {
            lemma_precedes_irreflexive(b[0]);
        }
        assert(a[0] == b[0]);
        let ta = a.drop_first();
        let tb = b.drop_first();
        assert(ascending(ta));
        assert(ascending(tb));
        assert forall|k: Seq<char>| ta.contains(k) implies tb.contains(k) by {
            let i = choose|i: int| 0 <= i < ta.len() && ta[i] == k;
            assert(a[i + 1] == k);
            assert(a.contains(k));
            assert(a.to_set().contains(k));
            assert(b.contains(k));
            let j = choose|j: int| 0 <= j < b.len() && b[j] == k;
            if j == 0 {
                lemma_precedes_irreflexive(k);
            }
            assert(tb[j - 1] == k);
        }
        assert forall|k: Seq<char>| tb.contains(k) implies ta.contains(k) by {
            let i = choose|i: int| 0 <= i < tb.len() && tb[i] == k;
            assert(b[i + 1] == k);
            assert(b.contains(k));
            assert(b.to_set().contains(k));
            assert(a.contains(k));
            let j = choose|j: int| 0 <= j < a.len() && a[j] == k;
            if j == 0 {
                lemma_precedes_irreflexive(k);
            }
            assert(ta[j - 1] == k);
        }
        assert(ta.to_set() =~= tb.to_set());
        lemma_ascending_unique(ta, tb);
        assert(a =~= seq![a[0]] + ta);
        assert(b =~= seq![b[0]] + tb);
    }
}

/// Puts `name` into the ascending vector `out` at its place, unless `out`
/// already holds an equal string.
fn insert_ascending(out: &mut Vec<String>, name: String)
    requires
        ascending(views(old(out)@)),
    ensures
        ascending(views(final(out)@)),
        forall|k: Seq<char>|
            views(final(out)@).contains(k) <==> (views(old(out)@).contains(k) || k == name@),
{
    let ghost before = views(out@);
    let mut j: usize = 0;
    while j < out.len() && comes_before(out[j].as_str(), name.as_str())
        invariant
            j <= out.len(),
            views(out@) == before,
            forall|k: int| 0 <= k < j ==> precedes(#[trigger] before[k], name@),
        decreases out.len() - j,
    {
        j += 1;
    }
    if j < out.len() && out[j] == name {
        assert(before[j as int] == name@);
        assert forall|k: Seq<char>| before.contains(k) || k == name@ implies before.contains(
            k,
        ) by {}
        return ;
    }
    proof {
        if j < out.len() {
            lemma_precedes_total(before[j as int], name@);
        }
    }
    out.insert(j, name);
    proof {
        let after = views(out@);
        assert(after =~= before.insert(j as int, name@));
        assert forall|a: int, b: int| 0 <= a < b < after.len() implies precedes(
            after[a],
            after[b],
        ) by {
            if b < j {
            } else if b == j {
            } else if a == j {
                if b - 1 > j {
                    lemma_precedes_transitive(name@, before[j as int], before[b - 1]);
                }
            } else if a < j {
                assert(after[a] == before[a]);
                assert(after[b] == before[b - 1]);
            } else {
                assert(after[a] == before[a - 1]);
                assert(after[b] == before[b - 1]);
            }
        }
        assert forall|k: Seq<char>| after.contains(k) <==> (before.contains(k) || k
            == name@) by {
            if after.contains(k) {
                let i = choose|i: int| 0 <= i < after.len() && after[i] == k;
                if i < j {
                    assert(before[i] == k);
                } else if i > j {
                    assert(before[i - 1] == k);
                }
            }
            if before.contains(k) {
                let i = choose|i: int| 0 <= i < before.len() && before[i] == k;
                if i < j {
                    assert(after[i] == k);
                } else {
                    assert(after[i + 1] == k);
                }
            }
            if k == name@ {
                assert(after[j as int] == k);
            }
        }
    }
}

/// The strings of `names` in strictly ascending dictionary order, each once.
pub fn sorted(names: &Vec<String>) -> (out: Vec<String>)
    ensures
        ascending(views(out@)),
        views(out@).to_set() == views(names@).to_set(),
{
    let mut out: Vec<String> = Vec::new();
    let mut i: usize = 0;
    while i < names.len()
        invariant
            i <= names.len(),
            ascending(views(out@)),
            forall|k: Seq<char>|
                views(out@).contains(k) <==> views(names@.take(i as int)).contains(k),
        decreases names.len() - i,
    {
        let ghost seen = views(names@.take(i as int));
        let ghost next = views(names@.take(i + 1));
        let name = names[i].clone();
        insert_ascending(&mut out, name);
        proof {
            assert(next =~= seen.push(name@));
            assert forall|k: Seq<char>| next.contains(k) <==> (seen.contains(k) || k
                == name@) by {
                if next.contains(k) {
                    let n = choose|n: int| 0 <= n < next.len() && next[n] == k;
                    if n < i {
                        assert(seen[n] == k);
                    }
                }
                if seen.contains(k) {
                    let n = choose|n: int| 0 <= n < seen.len() && seen[n] == k;
                    assert(next[n] == k);
                }
                if k == name@ {
                    assert(next[i as int] == k);
                }
            }
        }
        i += 1;
    }
    assert(names@.take(i as int) =~= names@);
    assert(views(out@).to_set() =~= views(names@).to_set());
    out
}


/// The character that writes the digit `d`.
pub open spec fn digit(d: nat) -> char {
    if d == 0 {
        '0'
    } else if d == 1 {
        '1'
    } else if d == 2 {
        '2'
    } else if d == 3 {
        '3'
    } else if d == 4 {
        '4'
    } else if d == 5 {
        '5'
    } else if d == 6 {
        '6'
    } else if d == 7 {
        '7'
    } else if d == 8 {
        '8'
    } else {
        '9'
    }
}

/// Whether `c` is one of the ten decimal digits.
pub open spec fn is_digit(c: char) -> bool {
    exists|d: nat| d < 10 && c == digit(d)
}

/// The decimal numeral of `n`, without sign or leading zeros.
pub open spec fn decimal(n: nat) -> Seq<char>
    decreases n,
{
    if n < 10 {
        seq![digit(n)]
    } else {
        decimal(n / 10).push(digit(n % 10))
    }
}

/// A decimal numeral is not empty and holds digits only.
pub proof fn lemma_decimal_digits(n: nat)
    ensures
        decimal(n).len() >= 1,
        forall|i: int| 0 <= i < decimal(n).len() ==> is_digit(#[trigger] decimal(n)[i]),
    decreases n,
{
    if n < 10 {
        assert(is_digit(digit(n)));
    } else {
        lemma_decimal_digits(n / 10);
        assert(is_digit(digit(n % 10)));
    }
}

/// Different numbers have different decimal numerals.
pub proof fn lemma_decimal_injective(a: nat, b: nat)
    requires
        decimal(a) == decimal(b),
    ensures
        a == b,
    decreases a,
{
    lemma_decimal_digits(a / 10);
    lemma_decimal_digits(b / 10);
    // A numeral of one digit stands for a number below ten, a longer one
    // for a number from ten on.
    assert(decimal(a).len() == if a < 10 {
        1
    } else {
        decimal(a / 10).len() + 1
    });
    assert(decimal(b).len() == if b < 10 {
        1
    } else {
        decimal(b / 10).len() + 1
    });
    if a < 10 {
        assert(decimal(a)[0] == digit(a));
        assert(decimal(b)[0] == digit(b));
    } else {
        let x = decimal(a / 10);
        let y = decimal(b / 10);
        assert(x.push(digit(a % 10)).last() == y.push(digit(b % 10)).last());
        assert(x.push(digit(a % 10)).drop_last() =~= x);
        assert(y.push(digit(b % 10)).drop_last() =~= y);
        lemma_decimal_injective(a / 10, b / 10);
        assert(a == 10 * (a / 10) + a % 10);
        assert(b == 10 * (b / 10) + b % 10);
    }
}

fn digit_str(d: u64) -> (s: &'static str)
    requires
        d < 10,
    ensures
        s@ == seq![digit(d as nat)],
{
    proof {
        reveal_strlit("0");
        reveal_strlit("1");
        reveal_strlit("2");
        reveal_strlit("3");
        reveal_strlit("4");
        reveal_strlit("5");
        reveal_strlit("6");
        reveal_strlit("7");
        reveal_strlit("8");
        reveal_strlit("9");
    }
    let s = if d == 0 {
        "0"
    } else if d == 1 {
        "1"
    } else if d == 2 {
        "2"
    } else if d == 3 {
        "3"
    } else if d == 4 {
        "4"
    } else if d == 5 {
        "5"
    } else if d == 6 {
        "6"
    } else if d == 7 {
        "7"
    } else if d == 8 {
        "8"
    } else {
        "9"
    };
    assert(s@ =~= seq![digit(d as nat)]);
    s
}

/// Writes `n` as a decimal numeral.
pub fn to_decimal(n: u64) -> (s: String)
    ensures
        s@ == decimal(n as nat),
    decreases n,
{
    if n < 10 {
        digit_str(n).to_owned()
    } else {
        let mut s = to_decimal(n / 10);
        s.append(digit_str(n % 10));
        assert(s@ =~= decimal((n / 10) as nat).push(digit((n % 10) as nat)));
        s
    }
}

/// The strings of `parts` written one after another with `sep` between
/// neighbours.
pub open spec fn joined(parts: Seq<Seq<char>>, sep: Seq<char>) -> Seq<char>
    decreases parts.len(),
{
    if parts.len() == 0 {
        Seq::empty()
    } else if parts.len() == 1 {
        parts[0]
    } else {
        joined(parts.drop_last(), sep) + sep + parts.last()
    }
}

/// Joins `parts` with `sep` between neighbours.
pub fn join(parts: &Vec<String>, sep: &str) -> (s: String)
    ensures
        s@ == joined(views(parts@), sep@),
{
    let mut s = String::new();
    let mut i: usize = 0;
    while i < parts.len()
        invariant
            i <= parts.len(),
            s@ == joined(views(parts@.take(i as int)), sep@),
        decreases parts.len() - i,
    {
        let ghost done = views(parts@.take(i as int));
        let ghost more = views(parts@.take(i + 1));
        proof {
            assert(more.drop_last() =~= done);
            assert(more.last() == parts@[i as int]@);
        }
        if i > 0 {
            s.append(sep);
        }
        s.append(parts[i].as_str());
        proof {
            if i == 0 {
                assert(s@ =~= more[0]);
            }
        }
        i += 1;
    }
    assert(parts@.take(i as int) =~= parts@);
    s
}


} // verus!
