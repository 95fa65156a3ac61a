//! What texts are put together to.

use crate::text::{decimal, digit_char, ends_with_text, joined, plural, starts_with_text};
use vstd::prelude::*;

verus! {

/// The number that decimal digits stand for.
pub open spec fn number_of(s: Seq<char>) -> nat
    decreases s.len(),
{
    if s.len() == 0 {
        0
    } else {
        (10 * number_of(s.drop_last()) + (s.last() as u32 - '0' as u32)) as nat
    }
}

/// A number is written in digits that stand for it, without a zero in front.
pub proof fn decimals_read_back(n: nat)
    ensures
        number_of(decimal(n)) == n,
        decimal(n).len() > 0,
        forall|i: int| 0 <= i < decimal(n).len() ==> '0' <= #[trigger] decimal(n)[i] <= '9',
        n > 0 ==> decimal(n)[0] != '0',
        n < 10 ==> decimal(n).len() == 1,
    decreases n,
{
    let s = decimal(n);
    if n < 10 {
        assert(s.drop_last() =~= Seq::empty());
        assert(digit_char(n) as u32 == n + 48);
        assert(number_of(Seq::empty()) == 0);
    } else {
        let before = decimal(n / 10);
        decimals_read_back(n / 10);
        assert(s.drop_last() =~= before);
        let d = n % 10;
        assert(digit_char(d) as u32 == d + 48);
        assert(n == 10 * (n / 10) + d);
        assert(s[0] == before[0]);
        assert forall|i: int| 0 <= i < s.len() implies '0' <= #[trigger] s[i] <= '9' by {
            if i < before.len() {
                assert(s[i] == before[i]);
            }
        }
    }
}

/// Parts are put together with the separator between neighbours and nowhere
/// else.
pub proof fn parts_are_joined(parts: Seq<Seq<char>>, p: Seq<char>, q: Seq<char>, sep: Seq<char>)
    ensures
        joined(Seq::empty(), sep) == Seq::<char>::empty(),
        joined(seq![p], sep) == p,
        joined(seq![p, q], sep) == p + sep + q,
        parts.len() > 0 ==> joined(parts.push(q), sep) == joined(parts, sep) + sep + q,
{
    let two = seq![p, q];
    assert(two.drop_last() =~= seq![p]);
    assert(parts.push(q).drop_last() =~= parts);
}

/// One thing is named in the singular, any other number in the plural.
pub proof fn one_is_singular(n: nat, one: Seq<char>, many: Seq<char>)
    ensures
        plural(1, one, many) == one,
        n != 1 ==> plural(n, one, many) == many,
{
}

/// A text starts with what it was put together from, and ends with it.
pub proof fn texts_start_and_end(a: Seq<char>, b: Seq<char>)
    ensures
        starts_with_text(a + b, a),
        ends_with_text(a + b, b),
{
    assert((a + b).subrange(0, a.len() as int) =~= a);
    assert((a + b).subrange(a.len() as int, (a + b).len() as int) =~= b);
}

} // verus!
