use vstd::prelude::*;

verus! {

/// A character with the Unicode `White_Space` property.
pub open spec fn is_space(c: char) -> bool {
    ('\t' <= c && c <= '\r') || c == ' ' || c == '\u{85}' || c == '\u{A0}' || c == '\u{1680}' || (
    '\u{2000}' <= c && c <= '\u{200A}') || c == '\u{2028}' || c == '\u{2029}' || c == '\u{202F}'
        || c == '\u{205F}' || c == '\u{3000}'
}

/// The maximal runs of non-space characters of `s`, from left to right.
pub open spec fn split_words(s: Seq<char>) -> Seq<Seq<char>>
    decreases s.len(),
{
    if s.len() == 0 {
        Seq::empty()
    } else {
        let init = split_words(s.drop_last());
        let c = s.last();
        if is_space(c) {
            init
        } else if s.len() > 1 && !is_space(s[s.len() - 2]) {
            init.drop_last().push(init.last().push(c))
        } else {
            init.push(seq![c])
        }
    }
}

/// An ASCII decimal digit.
pub open spec fn is_digit(c: char) -> bool {
    '0' <= c && c <= '9'
}

/// The value of a decimal digit.
pub open spec fn digit_value(c: char) -> int {
    c as int - '0' as int
}

/// The value of a string of decimal digits, most significant first.
pub open spec fn digits_value(d: Seq<char>) -> int
    decreases d.len(),
{
    if d.len() == 0 {
        0
    } else {
        digits_value(d.drop_last()) * 10 + digit_value(d.last())
    }
}

/// The digits of a number written with an optional leading `+`.
pub open spec fn unsigned_digits(w: Seq<char>) -> Seq<char> {
    if w.len() > 0 && w[0] == '+' {
        w.drop_first()
    } else {
        w
    }
}

/// The value of `w` read as a `usize`: an optional `+` and one or more
/// decimal digits whose value fits; `None` for anything else.
pub open spec fn number_value(w: Seq<char>) -> Option<int> {
    let d = unsigned_digits(w);
    if d.len() > 0 && (forall|i: int| 0 <= i < d.len() ==> is_digit(#[trigger] d[i])) && digits_value(
        d,
    ) <= usize::MAX {
        Some(digits_value(d))
    } else {
        None
    }
}

/// Tells whether `c` is a white-space character.
pub fn is_space_char(c: char) -> (r: bool)
    ensures
        r == is_space(c),
{
    ('\t' <= c && c <= '\r') || c == ' ' || c == '\u{85}' || c == '\u{A0}' || c == '\u{1680}' || (
    '\u{2000}' <= c && c <= '\u{200A}') || c == '\u{2028}' || c == '\u{2029}' || c == '\u{202F}'
        || c == '\u{205F}' || c == '\u{3000}'
}

/// A prefix of a digit string never has a larger value than the whole.
proof fn lemma_prefix_value_le(d: Seq<char>, k: int)
    requires
        0 <= k <= d.len(),
        forall|i: int| 0 <= i < d.len() ==> is_digit(#[trigger] d[i]),
    ensures
        0 <= digits_value(d.take(k)) <= digits_value(d),
    decreases d.len(),
{
    if k == d.len() {
        assert(d.take(k) =~= d);
        lemma_value_nonneg(d);
    } else {
        let init = d.drop_last();
        assert(is_digit(d[d.len() - 1]));
        lemma_prefix_value_le(init, k);
        assert(init.take(k) =~= d.take(k));
        lemma_value_nonneg(init);
    }
}

/// A digit string has a non-negative value.
proof fn lemma_value_nonneg(d: Seq<char>)
    requires
        forall|i: int| 0 <= i < d.len() ==> is_digit(#[trigger] d[i]),
    ensures
        digits_value(d) >= 0,
    decreases d.len(),
{
    if d.len() > 0 {
        let init = d.drop_last();
        assert(is_digit(d[d.len() - 1]));
        assert forall|i: int| 0 <= i < init.len() implies is_digit(#[trigger] init[i]) by {
            assert(init[i] == d[i]);
        }
        lemma_value_nonneg(init);
    }
}

/// Reads `w` as a `usize`: an optional `+` followed by decimal digits.
pub fn parse_number(w: &Vec<char>) -> (r: Option<usize>)
    ensures
        match r {
            Some(v) => number_value(w@) == Some(v as int),
            None => number_value(w@) is None,
        },
{
    let ghost d = unsigned_digits(w@);
    let mut start: usize = 0;
    if w.len() > 0 && w[0] == '+' {
        start = 1;
    }
    assert(d =~= w@.subrange(start as int, w@.len() as int));
    if start == w.len() {
        return None;
    }
    let mut value: usize = 0;
    let mut i: usize = start;
    while i < w.len()
        invariant
            start <= i <= w.len(),
            d == unsigned_digits(w@),
            d == w@.subrange(start as int, w@.len() as int),
            forall|j: int| 0 <= j < i - start ==> is_digit(#[trigger] d[j]),
            value == digits_value(d.take(i - start)),
        decreases w.len() - i,
    {
        let c = w[i];
        assert(c == d[i - start]);
        if !('0' <= c && c <= '9') {
            assert(!is_digit(d[i - start]));
            return None;
        }
        let digit = (c as u32 - '0' as u32) as usize;
        assert(d.take(i - start + 1).drop_last() =~= d.take(i - start));
        assert(digits_value(d.take(i - start + 1)) == value * 10 + digit);
        let next = match value.checked_mul(10) {
            Some(m) => m.checked_add(digit),
            None => None,
        };
        match next {
            Some(v) => {
                value = v;
            },
            None => {
                proof {
                    if forall|j: int| 0 <= j < d.len() ==> is_digit(#[trigger] d[j]) {
                        lemma_prefix_value_le(d, i - start + 1);
                    }
                }
                return None;
            },
        }
        i += 1;
    }
    assert(d.take(d.len() as int) =~= d);
    Some(value)
}

/// The non-space runs of `s`, each as a vector of characters.
pub fn words(s: &str) -> (r: Vec<Vec<char>>)
    ensures
        r@.map_values(|w: Vec<char>| w@) == split_words(s@),
{
    let n = s.unicode_len();
    let mut done: Vec<Vec<char>> = Vec::new();
    let mut cur: Vec<char> = Vec::new();
    let mut i: usize = 0;
    while i < n
        invariant
            i <= n,
            n == s@.len(),
            cur@.len() > 0 <==> (i > 0 && !is_space(s@[i - 1])),
            split_words(s@.take(i as int)) == if cur@.len() > 0 {
                done@.map_values(|w: Vec<char>| w@).push(cur@)
            } else {
                done@.map_values(|w: Vec<char>| w@)
            },
        decreases n - i,
    {
        let c = s.get_char(i);
        let ghost before = done@.map_values(|w: Vec<char>| w@);
        assert(s@.take(i + 1).drop_last() =~= s@.take(i as int));
        if is_space_char(c) {
            if cur.len() > 0 {
                done.push(cur);
                cur = Vec::new();
                assert(done@.map_values(|w: Vec<char>| w@) =~= before.push(
                    done@[done@.len() - 1]@,
                ));
            }
        } else {
            let ghost prev = cur@;
            cur.push(c);
            let ghost t = s@.take(i + 1);
            proof {
                let init = split_words(t.drop_last());
                assert(t.drop_last() =~= s@.take(i as int));
                assert(!is_space(t.last()));
                if prev.len() > 0 {
                    assert(init == before.push(prev));
                    assert(before.push(prev).drop_last() =~= before);
                    assert(t.len() > 1 && !is_space(t[t.len() - 2]));
                    assert(split_words(t) == init.drop_last().push(init.last().push(c)));
                    assert(cur@ =~= prev.push(c));
                } else {
                    assert(init == before);
                    assert(!(t.len() > 1 && !is_space(t[t.len() - 2])));
                    assert(split_words(t) == init.push(seq![c]));
                    assert(cur@ =~= seq![c]);
                }
            }
            assert(t.last() == c);
            assert(i > 0 ==> t[i - 1] == s@[i - 1]);
            assert(split_words(s@.take(i + 1)) =~= before.push(cur@));
        }
        i += 1;
    }
    if cur.len() > 0 {
        let ghost before = done@.map_values(|w: Vec<char>| w@);
        done.push(cur);
        assert(done@.map_values(|w: Vec<char>| w@) =~= before.push(done@[done@.len() - 1]@));
    }
    assert(s@.take(n as int) =~= s@);
    done
}

} // verus!
