use vstd::prelude::*;

use crate::glyph::Glyph;

verus! {

/// Whether `c` is one of the ten ASCII digits.
pub open spec fn is_digit(c: char) -> bool {
    '0' <= c && c <= '9'
}

/// The value of an ASCII digit; zero for any other character.
pub open spec fn digit_value(c: char) -> nat {
    if is_digit(c) {
        (c as u8 - 48) as nat
    } else {
        0
    }
}

/// Whether every glyph of `s` is an ASCII digit.
pub open spec fn all_digits(s: Seq<Glyph>) -> bool {
    forall|i: int| 0 <= i < s.len() ==> is_digit((#[trigger] s[i]).ch)
}

/// The number that `s` spells in base ten, most significant digit first.
pub open spec fn decimal_value(s: Seq<Glyph>) -> nat
    decreases s.len(),
{
    if s.len() == 0 {
        0
    } else {
        decimal_value(s.drop_last()) * 10 + digit_value(s.last().ch)
    }
}

/// `s` without one leading plus sign, if it has one.
pub open spec fn unsigned_body(s: Seq<Glyph>) -> Seq<Glyph> {
    if s.len() > 0 && s[0].ch == '+' {
        s.drop_first()
    } else {
        s
    }
}

/// The number that `s` denotes: an optional plus sign followed by at least
/// one ASCII digit, the whole worth at most `max`. Anything else denotes
/// nothing.
pub open spec fn parse_number(s: Seq<Glyph>, max: nat) -> Option<nat> {
    let body = unsigned_body(s);
    if body.len() > 0 && all_digits(body) && decimal_value(body) <= max {
        Some(decimal_value(body))
    } else {
        None
    }
}

/// A prefix never spells more than the whole.
pub proof fn lemma_decimal_prefix(s: Seq<Glyph>, n: int)
    requires
        0 <= n <= s.len(),
    ensures
        decimal_value(s.take(n)) <= decimal_value(s),
    decreases s.len(),
{
    if n == s.len() {
        assert(s.take(n) =~= s);
    } else {
        lemma_decimal_prefix(s.drop_last(), n);
        assert(s.drop_last().take(n) =~= s.take(n));
    }
}

/// Reads `s[from..to]` as a number of at most `max`.
pub fn read_number(s: &Vec<Glyph>, from: usize, to: usize, max: u32) -> (r: Option<u32>)
    requires
        from <= to <= s@.len(),
    ensures
        match r {
            Some(v) => parse_number(s@.subrange(from as int, to as int), max as nat) == Some(
                v as nat,
            ),
            None => parse_number(s@.subrange(from as int, to as int), max as nat) is None,
        },
{
    let ghost whole = s@.subrange(from as int, to as int);
    let start: usize = if from < to && s[from].ch == '+' {
        from + 1
    } else {
        from
    };
    let ghost body = s@.subrange(start as int, to as int);
    assert(body =~= unsigned_body(whole));
    if start == to {
        return None;
    }
    let mut acc: u64 = 0;
    let mut i: usize = start;
    assert(body.take(0) =~= Seq::<Glyph>::empty());
    while i < to
        invariant
            from <= start <= i <= to <= s@.len(),
            body == s@.subrange(start as int, to as int),
            body == unsigned_body(s@.subrange(from as int, to as int)),
            all_digits(body.take(i - start)),
            acc == decimal_value(body.take(i - start)),
            acc <= max,
        decreases to - i,
    {
        let c = s[i].ch;
        if !('0' <= c && c <= '9') {
            assert(body[i - start] == s@[i as int]);
            return None;
        }
        let d: u64 = (c as u8 - 48) as u64;
        let next: u64 = acc * 10 + d;
        proof {
            assert(body.take(i + 1 - start).drop_last() =~= body.take(i - start));
            assert(body.take(i + 1 - start).last() == s@[i as int]);
            assert(next == decimal_value(body.take(i + 1 - start)));
        }
        if next > max as u64 {
            proof {
                lemma_decimal_prefix(body, i + 1 - start);
            }
            return None;
        }
        acc = next;
        i += 1;
    }
    assert(body.take(to - start) =~= body);
    Some(acc as u32)
}

} // verus!
