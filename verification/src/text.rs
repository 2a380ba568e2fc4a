use vstd::prelude::*;
use vstd::std_specs::iter::IteratorSpec;

verus! {

/// The characters of a string slice, in order.
pub fn chars_of(s: &str) -> (r: Vec<char>)
    ensures
        r@ == s@,
{
    broadcast use vstd::string::next_postcondition;
    broadcast use vstd::string::axiom_spec_iter;

    let mut it = s.chars();
    let mut r: Vec<char> = Vec::new();
    proof {
        assert(vstd::string::spec_iter(s).remaining() == s@);
        assert(r@ + it.remaining() =~= s@);
    }
    loop
        invariant
            it.obeys_prophetic_iter_laws(),
            it.decrease() is Some,
            r@ + it.remaining() == s@,
        decreases it.decrease()->0,
    {
        let ghost prev = it;
        match it.next() {
            Some(c) => {
                r.push(c);
                proof {
                    assert(r@ + it.remaining() =~= s@);
                }
            },
            None => {
                proof {
                    assert(r@ =~= s@);
                }
                return r;
            },
        }
    }
}

/// Whether `pat` occurs in `s` as a contiguous run of characters.
pub open spec fn seq_contains(s: Seq<char>, pat: Seq<char>) -> bool {
    exists|k: int|
        0 <= k && k + pat.len() <= s.len() && #[trigger] s.subrange(k, k + pat.len()) == pat
}

/// Substring search: whether `pat` occurs anywhere inside `s`.
pub fn str_contains(s: &str, pat: &str) -> (r: bool)
    ensures
        r == seq_contains(s@, pat@),
{
    let sc = chars_of(s);
    let pc = chars_of(pat);
    if pc.len() == 0 {
        proof {
            assert(s@.subrange(0, 0 + pat@.len() as int) =~= pat@);
        }
        return true;
    }
    if pc.len() > sc.len() {
        return false;
    }
    let bound = sc.len() - pc.len();
    let mut k: usize = 0;
    while k <= bound
        invariant
            sc@ == s@,
            pc@ == pat@,
            1 <= pc.len() <= sc.len(),
            bound == sc.len() - pc.len(),
            k <= bound + 1,
            forall|kk: int|
                0 <= kk < k ==> #[trigger] s@.subrange(kk, kk + pat@.len() as int) != pat@,
        decreases bound + 1 - k,
    {
        let mut j: usize = 0;
        let mut matched = true;
        while j < pc.len()
            invariant
                sc@ == s@,
                pc@ == pat@,
                k + pc.len() <= sc.len(),
                j <= pc.len(),
                matched ==> forall|jj: int| 0 <= jj < j ==> s@[k + jj] == pat@[jj],
                !matched ==> s@.subrange(k as int, k as int + pat@.len() as int) != pat@,
            decreases pc.len() - j,
        {
            if matched && sc[k + j] != pc[j] {
                proof {
                    assert(s@.subrange(k as int, k as int + pat@.len() as int)[j as int]
                        == s@[k + j]);
                }
                matched = false;
            }
            j = j + 1;
        }
        if matched {
            proof {
                assert(s@.subrange(k as int, k as int + pat@.len() as int) =~= pat@);
            }
            return true;
        }
        k = k + 1;
    }
    return false;
}

/// Whether `c` is a decimal digit.
pub open spec fn is_digit(c: char) -> bool {
    48 <= c as int && c as int <= 57
}

/// The numeric value of the digit `c`.
pub open spec fn digit_val(c: char) -> int {
    c as int - 48
}

/// The value of a run of decimal digits, or `None` when the run is empty or
/// holds a character that is no digit.
pub open spec fn digits_val(s: Seq<char>) -> Option<int>
    decreases s.len(),
{
    if s.len() == 0 {
        None
    } else if !is_digit(s.last()) {
        None
    } else if s.len() == 1 {
        Some(digit_val(s.last()))
    } else {
        match digits_val(s.drop_last()) {
            Some(v) => Some(v * 10 + digit_val(s.last())),
            None => None,
        }
    }
}

/// The value of a decimal numeral with an optional leading plus sign.
pub open spec fn parse_level(s: Seq<char>) -> Option<int> {
    if s.len() > 0 && s[0] == '+' {
        digits_val(s.drop_first())
    } else {
        digits_val(s)
    }
}

/// The value of a decimal numeral, bounded by the machine word: what the
/// standard parse of an unsigned machine integer accepts.
pub open spec fn parse_level_usize(s: Seq<char>) -> Option<int> {
    match parse_level(s) {
        Some(v) => if v <= usize::MAX as int {
            Some(v)
        } else {
            None
        },
        None => None,
    }
}

/// A digit run holding a non-digit has no value.
proof fn lemma_digits_val_non_digit(s: Seq<char>, k: int)
    requires
        0 <= k < s.len(),
        !is_digit(s[k]),
    ensures
        digits_val(s) is None,
    decreases s.len(),
{
    if s.len() > 0 && is_digit(s.last()) && s.len() > 1 {
        assert(k < s.len() - 1);
        assert(s.drop_last()[k] == s[k]);
        lemma_digits_val_non_digit(s.drop_last(), k);
    }
}

/// A digit run's value is never negative.
proof fn lemma_digits_val_nonneg(s: Seq<char>)
    requires
        digits_val(s) is Some,
    ensures
        digits_val(s)->0 >= 0,
    decreases s.len(),
{
    if s.len() > 1 {
        lemma_digits_val_nonneg(s.drop_last());
    }
}

/// Extending a digit run never shrinks its value: every valued prefix is at
/// most the whole.
proof fn lemma_digits_val_monotone(s: Seq<char>, j: int)
    requires
        1 <= j <= s.len(),
        digits_val(s) is Some,
    ensures
        digits_val(s.take(j)) is Some,
        digits_val(s.take(j))->0 <= digits_val(s)->0,
    decreases s.len(),
{
    if j == s.len() {
        assert(s.take(j) =~= s);
    } else {
        assert(s.len() > 1);
        assert(digits_val(s.drop_last()) is Some);
        lemma_digits_val_nonneg(s.drop_last());
        assert(s.take(j) =~= s.drop_last().take(j));
        lemma_digits_val_monotone(s.drop_last(), j);
    }
}

/// The numeric value of `c` when it is a decimal digit.
fn digit_of(c: char) -> (r: Option<u32>)
    ensures
        r matches Some(d) ==> is_digit(c) && d as int == digit_val(c),
        r is None ==> !is_digit(c),
{
    if c >= '0' && c <= '9' {
        let u = c as u32;
        proof {
            assert(u as int == c as int);
        }
        Some(u - 48)
    } else {
        None
    }
}

/// Parses a decimal numeral with an optional leading plus sign, as the
/// standard parse of an unsigned machine integer does: `None` on an empty
/// run, on a character that is no digit, and on overflow.
pub fn parse_usize_chars(s: &Vec<char>) -> (r: Option<usize>)
    ensures
        match parse_level_usize(s@) {
            Some(v) => r matches Some(u) && u as int == v,
            None => r is None,
        },
{
    let mut start: usize = 0;
    if s.len() > 0 && s[0] == '+' {
        start = 1;
    }
    let ghost body = if start == 1 {
        s@.drop_first()
    } else {
        s@
    };
    proof {
        if start == 1 {
            assert(parse_level(s@) == digits_val(body));
        }
    }
    if s.len() == start {
        proof {
            assert(body.len() == 0);
        }
        return None;
    }
    let mut acc: usize = 0;
    let mut i: usize = start;
    while i < s.len()
        invariant
            start <= 1,
            start as int <= i as int <= s@.len(),
            start == 1 ==> s@.len() > 0 && s@[0] == '+' && body == s@.drop_first(),
            start == 0 ==> body == s@ && !(s@.len() > 0 && s@[0] == '+'),
            body.len() == s@.len() - start,
            i > start ==> digits_val(body.take(i - start)) == Some(acc as int),
            i == start ==> acc == 0,
        decreases s@.len() - i,
    {
        let c = s[i];
        proof {
            assert(body[i - start] == s@[i as int]);
        }
        let d: usize = match digit_of(c) {
            Some(d) => d as usize,
            None => {
                proof {
                    lemma_digits_val_non_digit(body, i - start);
                }
                return None;
            },
        };
        let ghost m = i - start;
        proof {
            assert(body.take(m + 1).drop_last() =~= body.take(m));
            assert(body.take(m + 1).last() == body[m]);
        }
        let next = match acc.checked_mul(10) {
            Some(t) => t.checked_add(d),
            None => None,
        };
        match next {
            Some(v) => {
                proof {
                    assert(is_digit(body[m]));
                    assert(body.take(m + 1).len() == m + 1);
                    if m == 0 {
                        assert(digits_val(body.take(1)) == Some(digit_val(body.take(1).last())));
                        assert(digits_val(body.take(1)) == Some(digit_val(body[0])));
                    }
                    assert(digits_val(body.take(m + 1)) == Some(acc as int * 10 + digit_val(body[m])));
                }
                acc = v;
            },
            None => {
                proof {
                    let over = acc as int * 10 + digit_val(body[m]);
                    if m == 0 {
                        assert(acc == 0);
                        assert(false);
                    }
                    assert(digits_val(body.take(m + 1)) == Some(over));
                    assert(over > usize::MAX as int);
                    if digits_val(body) is Some {
                        lemma_digits_val_monotone(body, m + 1);
                    }
                }
                return None;
            },
        }
        i = i + 1;
    }
    proof {
        assert(body.take(body.len() as int) =~= body);
    }
    Some(acc)
}

} // verus!
