//! Numbers and statuses as text.

use vstd::prelude::*;
use vstd::string::*;

use crate::scenarios::stored_id;
use crate::status::{error_kind_of, failure_kind_of, is_success_status};
use crate::text::{concatenation, decimal, digit_char, digits, zero_padded};

verus! {

/// The worth of a digit: `0` to `9`, then `a` to `f`.
pub open spec fn digit_worth(c: char) -> int {
    if '0' <= c <= '9' {
        c as int - '0' as int
    } else {
        10 + (c as int - 'a' as int)
    }
}

/// The number that a text of digits stands for.
pub open spec fn number_in(text: Seq<char>, base: int) -> int {
    text.fold_left(0int, |n: int, c: char| n * base + digit_worth(c))
}

/// A digit is worth what it is written for.
proof fn lemma_digit_worth(d: nat)
    requires
        d < 16,
    ensures
        digit_worth(digit_char(d)) == d,
        d < 10 ==> '0' <= digit_char(d) <= '9',
        d >= 10 ==> 'a' <= digit_char(d) <= 'f',
        digit_char(d) == '0' <==> d == 0,
{
    if d < 10 {
        assert(digit_char(d) as u32 == '0' as u32 + d);
    } else {
        assert(digit_char(d) as u32 == 'a' as u32 + (d - 10));
    }
}

/// Written out and read again, a number is the same. Its digits are digits of the base, in lower
/// case, and none is a leading zero.
pub proof fn law_digits_are_the_number(n: nat, base: nat)
    requires
        2 <= base <= 16,
    ensures
        number_in(digits(n, base), base as int) == n,
        digits(n, base).len() >= 1,
        digits(n, base).len() > 1 <==> n >= base,
        n > 0 ==> digits(n, base)[0] != '0',
        forall|i: int|
            0 <= i < digits(n, base).len() ==> ('0' <= #[trigger] digits(n, base)[i] <= '9' || 'a'
                <= digits(n, base)[i] <= 'f') && digit_worth(digits(n, base)[i]) < base,
    decreases n,
{
    let text = digits(n, base);
    let f = |v: int, c: char| v * base + digit_worth(c);
    if n < base {
        lemma_digit_worth(n);
        assert(text =~= seq![digit_char(n)]);
        assert(text.drop_last() =~= Seq::empty());
        reveal_with_fuel(Seq::fold_left, 2);
        assert(0 * base == 0) by (nonlinear_arith);
    } else {
        assert(n / base < n && n / base > 0 && n % base < base && (n / base) * base + n % base
            == n) by (nonlinear_arith)
            requires
                2 <= base <= n,
        ;
        law_digits_are_the_number(n / base, base);
        lemma_digit_worth(n % base);
        let high = digits(n / base, base);
        assert(text.drop_last() =~= high);
        assert(text.last() == digit_char(n % base));
        assert forall|i: int| 0 <= i < text.len() implies ('0' <= #[trigger] text[i] <= '9' || 'a'
            <= text[i] <= 'f') && digit_worth(text[i]) < base by {
            if i < high.len() {
                assert(text[i] == high[i]);
            }
        }
        assert(text[0] == high[0]);
    }
}

/// Decimal text stands for its number, in base ten.
pub proof fn law_decimal_is_the_number(n: nat)
    ensures
        number_in(decimal(n), 10) == n,
        forall|i: int| 0 <= i < decimal(n).len() ==> '0' <= #[trigger] decimal(n)[i] <= '9',
        n > 0 ==> decimal(n)[0] != '0',
        decimal(n).len() >= 1,
        n == 0 ==> decimal(n) == seq!['0'],
{
    law_digits_are_the_number(n, 10);
    assert forall|i: int| 0 <= i < decimal(n).len() implies '0' <= #[trigger] decimal(n)[i]
        <= '9' by {
        assert(digit_worth(digits(n, 10)[i]) < 10);
    }
    if n == 0 {
        lemma_digit_worth(0);
        assert(decimal(n) =~= seq!['0']);
    }
}

/// Padding puts nothing but zeros in front of a text, as few as make it wide enough.
pub proof fn law_padding_is_zeros_in_front(s: Seq<char>, width: nat)
    ensures
        ({
            let padded = zero_padded(s, width);
            let front = padded.len() - s.len();
            &&& padded.len() == if s.len() < width {
                width
            } else {
                s.len()
            }
            &&& padded.skip(front) == s
            &&& forall|i: int| 0 <= i < front ==> #[trigger] padded[i] == '0'
        }),
{
    let padded = zero_padded(s, width);
    assert(padded.skip(padded.len() - s.len()) =~= s);
}

/// Texts that are put one after the other stand whole and in order.
pub proof fn law_pieces_stand_in_a_row(parts: Seq<Seq<char>>, last: Seq<char>)
    ensures
        concatenation(Seq::<Seq<char>>::empty()) == Seq::<char>::empty(),
        concatenation(parts.push(last)) == concatenation(parts) + last,
{
    assert(parts.push(last).drop_last() =~= parts);
}

/// The words for the statuses: nothing for the two hundreds, and else by throttling, by a missing
/// item, by the four hundreds and by the five hundreds.
pub proof fn law_words_for_statuses(status: u16)
    ensures
        is_success_status(status) <==> 200 <= status <= 299,
        failure_kind_of(status) is None <==> 200 <= status <= 299,
        !(200 <= status <= 299) ==> failure_kind_of(status) == Some(error_kind_of(status)),
        status == 429 ==> error_kind_of(status) == "throttled"@,
        status == 404 ==> error_kind_of(status) == "not_found"@,
        400 <= status <= 499 && status != 404 && status != 429 ==> error_kind_of(status)
            == "client_error"@,
        500 <= status <= 599 ==> error_kind_of(status) == "server_error"@,
        status < 400 || status > 599 ==> error_kind_of(status) == "unknown"@,
{
}

/// Where an id has to be written, it is the one that there is, and no text where there is none.
pub proof fn law_missing_ids_are_empty(id: Option<Seq<char>>)
    ensures
        id matches Some(s) ==> stored_id(id) == s,
        id is None ==> stored_id(id).len() == 0,
{
}

} // verus!
