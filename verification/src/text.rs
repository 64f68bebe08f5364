use vstd::prelude::*;

verus! {

/// The decimal digit `d` (`0 <= d < 10`) as a character.
pub open spec fn digit_char(d: nat) -> char {
    if d == 0 {
        '0'
    } else if d == 1 {
        '1'
    } else if d == 2 {
        '2'
    } else if d == 3 {
        '3'
    } else if d == 4 {
        '4'
    } else if d == 5 {
        '5'
    } else if d == 6 {
        '6'
    } else if d == 7 {
        '7'
    } else if d == 8 {
        '8'
    } else {
        '9'
    }
}

/// Decimal notation of `n`, without leading zeros (`"0"` for zero), as
/// Rust's `to_string` writes unsigned integers.
pub open spec fn decimal(n: nat) -> Seq<char>
    decreases n,
{
    if n < 10 {
        seq![digit_char(n)]
    } else {
        decimal(n / 10).push(digit_char(n % 10))
    }
}

/// The decimal digit `d` as a one-character string slice.
fn digit_str(d: u64) -> (s: &'static str)
    requires
        d < 10,
    ensures
        s@ == seq![digit_char(d as nat)],
{
    let digits = "0123456789";
    proof {
        reveal_strlit("0123456789");
    }
    let s = digits.substring_char(d as usize, (d + 1) as usize);
    assert(s@ =~= seq![digit_char(d as nat)]);
    s
}

/// Appends the decimal notation of `n` to `s`.
pub fn append_decimal(s: &mut String, n: u64)
    ensures
        final(s)@ == old(s)@ + decimal(n as nat),
    decreases n,
{
    if n >= 10 {
        append_decimal(s, n / 10);
    }
    s.append(digit_str(n % 10));
    proof {
        if n >= 10 {
            assert(final(s)@ =~= old(s)@ + decimal(n as nat));
        } else {
            assert(final(s)@ =~= old(s)@ + decimal(n as nat));
        }
    }
}

/// Decimal notation of `n`, as `n.to_string()` writes it.
pub fn decimal_string(n: u64) -> (s: String)
    ensures
        s@ == decimal(n as nat),
{
    let mut s = String::new();
    append_decimal(&mut s, n);
    assert(s@ =~= decimal(n as nat));
    s
}

/// The decimal notation of a number never is empty, and it is a single digit
/// exactly below ten.
pub proof fn lemma_decimal_len(n: nat)
    ensures
        decimal(n).len() >= 1,
        decimal(n).len() == 1 <==> n < 10,
    decreases n,
{
    if n >= 10 {
        lemma_decimal_len(n / 10);
    }
}

/// `s` occurs in `text` starting at position `i`.
pub open spec fn occurs_at(text: Seq<char>, s: Seq<char>, i: int) -> bool {
    0 <= i && i + s.len() <= text.len() && text.subrange(i, i + s.len()) == s
}

/// `s` occurs somewhere in `text` (the empty string occurs everywhere), as
/// `str::contains` decides.
pub open spec fn contains_str(text: Seq<char>, s: Seq<char>) -> bool {
    exists|i: int| occurs_at(text, s, i)
}

/// Whether `text` starts with `prefix`, as `str::starts_with` decides.
pub fn starts_with(text: &str, prefix: &str) -> (b: bool)
    ensures
        b == prefix@.is_prefix_of(text@),
{
    let n = text.unicode_len();
    let m = prefix.unicode_len();
    if m > n {
        return false;
    }
    let mut i: usize = 0;
    while i < m
        invariant
            n == text@.len(),
            m == prefix@.len(),
            m <= n,
            i <= m,
            forall|j: int| 0 <= j < i ==> text@[j] == prefix@[j],
        decreases m - i,
    {
        if text.get_char(i) != prefix.get_char(i) {
            return false;
        }
        i = i + 1;
    }
    true
}

/// Whether `s` occurs at position `i` of `text`.
fn occurs_at_exec(text: &str, s: &str, i: usize, n: usize, m: usize) -> (b: bool)
    requires
        n == text@.len(),
        m == s@.len(),
        i + m <= n,
    ensures
        b == occurs_at(text@, s@, i as int),
{
    let mut j: usize = 0;
    while j < m
        invariant
            n == text@.len(),
            m == s@.len(),
            i + m <= n,
            j <= m,
            forall|k: int| 0 <= k < j ==> text@[i + k] == s@[k],
        decreases m - j,
    {
        if text.get_char(i + j) != s.get_char(j) {
            assert(text@.subrange(i as int, i + m)[j as int] != s@[j as int]);
            return false;
        }
        j = j + 1;
    }
    assert(text@.subrange(i as int, i + m) =~= s@);
    true
}

/// Whether `s` occurs in `text`, as `str::contains` decides.
pub fn contains(text: &str, s: &str) -> (b: bool)
    ensures
        b == contains_str(text@, s@),
{
    let n = text.unicode_len();
    let m = s.unicode_len();
    if m > n {
        assert forall|i: int| !occurs_at(text@, s@, i) by {}
        return false;
    }
    let last = n - m;
    let mut i: usize = 0;
    let mut done = false;
    while !done
        invariant
            n == text@.len(),
            m == s@.len(),
            last == n - m,
            i <= last,
            done ==> i == last,
            forall|k: int| 0 <= k < i ==> !occurs_at(text@, s@, k),
            done ==> !occurs_at(text@, s@, i as int),
        decreases last - i + if done {
            0int
        } else {
            1int
        },
    {
        if occurs_at_exec(text, s, i, n, m) {
            return true;
        }
        if i == last {
            done = true;
        } else {
            i = i + 1;
        }
    }
    assert forall|k: int| !occurs_at(text@, s@, k) by {
        if 0 <= k < i {
        }
    }
    false
}

/// The characters of `text`, in order.
pub fn chars_of(text: &str) -> (chars: Vec<char>)
    ensures
        chars@ == text@,
{
    let mut chars: Vec<char> = Vec::new();
    for c in it: text.chars()
        invariant
            it.seq() == text@,
            chars@ == text@.take(it.index() as int),
    {
        chars.push(c);
        assert(chars@ =~= text@.take(it.index() + 1));
    }
    assert(chars@ =~= text@);
    chars
}

/// `parts` joined with newlines between them, as `join("\n")` writes them.
pub open spec fn spec_join_lines(parts: Seq<Seq<char>>) -> Seq<char>
    decreases parts.len(),
{
    if parts.len() == 0 {
        Seq::empty()
    } else if parts.len() == 1 {
        parts[0]
    } else {
        spec_join_lines(parts.drop_last()) + "\n"@ + parts.last()
    }
}

/// `parts` joined with newlines between them.
pub fn join_lines(parts: &Vec<String>) -> (joined: String)
    ensures
        joined@ == spec_join_lines(parts@.map_values(|part: String| part@)),
{
    let ghost views = parts@.map_values(|part: String| part@);
    let mut joined = String::new();
    let mut i: usize = 0;
    while i < parts.len()
        invariant
            i <= parts@.len(),
            views == parts@.map_values(|part: String| part@),
            joined@ == spec_join_lines(views.take(i as int)),
        decreases parts@.len() - i,
    {
        if i > 0 {
            joined.append("\n");
        }
        joined.append(parts[i].as_str());
        i = i + 1;
        proof {
            let now = views.take(i as int);
            assert(now.drop_last() =~= views.take(i - 1));
            if i == 1 {
                assert(now =~= seq![parts@[0]@]);
                assert(joined@ =~= spec_join_lines(now));
            } else {
                assert(joined@ =~= spec_join_lines(now));
            }
        }
    }
    assert(views.take(i as int) =~= views);
    joined
}

} // verus!
