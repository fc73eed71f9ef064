//! Texts of numbers, and texts put together.

use vstd::prelude::*;

use crate::expression::is_blank;
use crate::text::{contains_text, decimal_text, join2, join3, same_text};

verus! {

/// The number that a row of decimal digits stands for.
pub open spec fn number_read(digits: Seq<char>) -> int
    decreases digits.len(),
{
    if digits.len() == 0 {
        0
    } else {
        10 * number_read(digits.drop_last()) + (digits.last() as int - '0' as int)
    }
}

/// The text of a number has digits only, reads back as the number, and begins
/// with a zero for the number zero alone.
pub proof fn a_number_reads_back(n: nat)
    ensures
        crate::text::decimal(n).len() > 0,
        forall|i: int| 0 <= i < crate::text::decimal(n).len() ==> '0' <= #[trigger] crate::text::decimal(n)[i] <= '9',
        number_read(crate::text::decimal(n)) == n,
        n > 0 ==> crate::text::decimal(n)[0] != '0',
        n == 0 ==> crate::text::decimal(n).len() == 1,
    decreases n,
{
    let t = crate::text::decimal(n);
    let last = crate::text::digit((n % 10) as int);
    reveal_strlit("0");
    reveal_strlit("1");
    reveal_strlit("2");
    reveal_strlit("3");
    reveal_strlit("4");
    reveal_strlit("5");
    reveal_strlit("6");
    reveal_strlit("7");
    reveal_strlit("8");
    reveal_strlit("9");
    assert(last.len() == 1);
    assert(last[0] as int == '0' as int + n % 10);
    if n < 10 {
        assert(t == last);
        assert(t.drop_last() =~= Seq::<char>::empty());
        assert(number_read(t.drop_last()) == 0);
    } else {
        a_number_reads_back(n / 10);
        let before = crate::text::decimal(n / 10);
        assert(t == before + last);
        assert(t.drop_last() =~= before);
        assert(t.last() == last[0]);
    }
}

/// Two numbers of one text are one number.
pub proof fn different_numbers_have_different_texts(a: nat, b: nat)
    requires
        crate::text::decimal(a) == crate::text::decimal(b),
    ensures
        a == b,
{
    a_number_reads_back(a);
    a_number_reads_back(b);
}

/// Every part of a joined text is found in it, behind the parts before it and
/// one separator for each of them.
pub proof fn a_joined_text_grows_by_a_part(parts: Seq<Seq<char>>, part: Seq<char>, sep: Seq<char>)
    ensures
        crate::text::joined(Seq::empty(), sep) == Seq::<char>::empty(),
        crate::text::joined(Seq::empty().push(part), sep) == part,
        parts.len() > 0 ==> crate::text::joined(parts.push(part), sep) == crate::text::joined(parts, sep) + sep + part,
{
    assert(parts.push(part).drop_last() =~= parts);
    assert(parts.push(part).last() == part);
}

/// The decimal text that is made of a number is that number's.
pub proof fn a_number_is_written_out(n: u128, r: String)
    requires
        call_ensures(decimal_text, (n,), r),
    ensures
        number_read(r@) == n,
        forall|i: int| 0 <= i < r@.len() ==> '0' <= #[trigger] r@[i] <= '9',
        r@.len() > 1 ==> r@[0] != '0',
{
    a_number_reads_back(n as nat);
}

/// A text contains another exactly where it is the other between what comes before
/// it and what comes behind it.
pub proof fn a_contained_text_is_found(hay: &str, needle: &str, r: bool, before: Seq<char>, after: Seq<char>)
    requires
        call_ensures(contains_text, (hay, needle), r),
    ensures
        hay@ == before + needle@ + after ==> r,
        r ==> exists|i: int|
            0 <= i && i + needle@.len() <= hay@.len() && #[trigger] hay@.subrange(i, i + needle@.len()) == needle@,
{
    if hay@ == before + needle@ + after {
        let i = before.len() as int;
        assert(hay@.subrange(i, i + needle@.len()) =~= needle@);
        assert(crate::text::occurs_at(hay@, needle@, i));
    }
    if r {
        let i = choose|i: int| crate::text::occurs_at(hay@, needle@, i);
        assert(hay@.subrange(i, i + needle@.len()) == needle@);
    }
}

/// Texts put together stand one behind the other.
pub proof fn texts_are_put_together(a: &str, b: &str, c: &str, two: String, three: String)
    requires
        call_ensures(join2, (a, b), two),
        call_ensures(join3, (a, b, c), three),
    ensures
        two@.len() == a@.len() + b@.len(),
        two@.take(a@.len() as int) == a@,
        two@.skip(a@.len() as int) == b@,
        three@ == two@ + c@,
{
    assert(two@.take(a@.len() as int) =~= a@);
    assert(two@.skip(a@.len() as int) =~= b@);
}

/// Texts are the same where every character is.
pub proof fn the_same_text_is_known(a: &str, b: &str, r: bool)
    requires
        call_ensures(same_text, (a, b), r),
    ensures
        r ==> a@.len() == b@.len() && forall|i: int| 0 <= i < a@.len() ==> #[trigger] a@[i] == b@[i],
        (a@.len() == b@.len() && forall|i: int| 0 <= i < a@.len() ==> #[trigger] a@[i] == b@[i]) ==> r,
{
    if a@.len() == b@.len() && forall|i: int| 0 <= i < a@.len() ==> #[trigger] a@[i] == b@[i] {
        assert(a@ =~= b@);
    }
}

/// A text is blank where it has characters and each is a space, a tab or an end of
/// line; a text with any other character is not, nor is an empty one.
pub proof fn a_text_of_spaces_is_blank(t: &str, r: bool, k: int)
    requires
        call_ensures(is_blank, (t,), r),
    ensures
        t@.len() == 0 ==> !r,
        (0 <= k < t@.len() && t@[k] != ' ' && t@[k] != '\t' && t@[k] != '\r' && t@[k] != '\n') ==> !r,
        (t@.len() > 0 && forall|i: int|
            0 <= i < t@.len() ==> #[trigger] t@[i] == ' ' || t@[i] == '\t' || t@[i] == '\r' || t@[i] == '\n') ==> r,
{
    if 0 <= k < t@.len() && r {
        assert(crate::expression::spacing(t@[k]));
    }
}

} // verus!
