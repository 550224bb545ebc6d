//! What is written can be read: a number by its digits, bytes by theirs, and an error keeps
//! what was said of it first.

use vstd::prelude::*;

use crate::error::AppError;
use crate::text::{
    all_digits, decimal, decimal_text, digits_value, encode_lower_hex, hex_char, is_digit,
    lower_hex, padded, zeros,
};

verus! {

proof fn lemma_decimal(n: nat)
    ensures
        decimal_text(n).len() > 0,
        all_digits(decimal_text(n)),
        digits_value(decimal_text(n)) == n,
        n > 0 ==> decimal_text(n)[0] != '0',
    decreases n,
{
    reveal_with_fuel(digits_value, 2);
    if n < 10 {
        let text = decimal_text(n);
        assert(text == seq![hex_char(n as int)]);
        assert(text.drop_last() =~= Seq::empty());
        assert(is_digit(text[0]));
    } else {
        lemma_decimal(n / 10);
        let head = decimal_text(n / 10);
        let digit = hex_char((n % 10) as int);
        let text = decimal_text(n);
        assert(text == head.push(digit));
        assert(text.drop_last() =~= head);
        assert(text.last() == digit);
        assert forall|i: int| 0 <= i < text.len() implies is_digit(#[trigger] text[i]) by {
            if i < head.len() {
                assert(text[i] == head[i]);
            }
        }
        assert(text[0] == head[0]);
    }
}

/// A number is written in digits from which it is read again, and without a zero in front;
/// different numbers are written differently.
pub proof fn lemma_number_is_read_from_its_digits(n: u64, m: u64, text: String, other: String)
    requires
        call_ensures(decimal, (n,), text),
        call_ensures(decimal, (m,), other),
    ensures
        text@.len() > 0 && all_digits(text@),
        digits_value(text@) == n,
        n > 0 ==> text@[0] != '0',
        text@ == other@ ==> n == m,
{
    lemma_decimal(n as nat);
    lemma_decimal(m as nat);
}

/// A number that is too short is filled up with zeros in front, and one that is not is left
/// as it is.
pub proof fn lemma_number_is_filled_up(n: u64, width: usize, text: String, plain: String)
    requires
        call_ensures(padded, (n, width), text),
        call_ensures(decimal, (n,), plain),
    ensures
        text@.len() >= width && text@.len() >= plain@.len(),
        text@.len() == width || text@ == plain@,
        text@.subrange(text@.len() - plain@.len(), text@.len() as int) == plain@,
        forall|i: int| 0 <= i < text@.len() - plain@.len() ==> #[trigger] text@[i] == '0',
{
    let digits = decimal_text(n as nat);
    if digits.len() < width {
        let front = zeros((width - digits.len()) as nat);
        assert(text@ == front + digits);
        assert(text@.subrange(text@.len() - plain@.len(), text@.len() as int) =~= plain@);
    } else {
        assert(text@.subrange(0, text@.len() as int) =~= text@);
    }
}

/// Bytes are written with two digits each, in their order; different bytes are written
/// differently.
pub proof fn lemma_bytes_are_known_by_their_digits(
    first: &[u8],
    second: &[u8],
    one: String,
    two: String,
)
    requires
        first@.len() <= usize::MAX / 2,
        second@.len() <= usize::MAX / 2,
        call_ensures(encode_lower_hex, (first,), one),
        call_ensures(encode_lower_hex, (second,), two),
    ensures
        one@.len() == 2 * first@.len(),
        one@ == two@ ==> first@ == second@,
{
    if one@ == two@ {
        assert(one@ == lower_hex(first@) && two@ == lower_hex(second@));
        assert(one@.len() == 2 * first@.len() && two@.len() == 2 * second@.len());
        assert(first@.len() == second@.len());
        assert forall|i: int| 0 <= i < first@.len() implies first@[i] == second@[i] by {
            let high = 2 * i;
            let low = 2 * i + 1;
            assert(high / 2 == i && high % 2 == 0 && low / 2 == i && low % 2 == 1);
            assert(lower_hex(first@)[high] == lower_hex(second@)[high]);
            assert(lower_hex(first@)[low] == lower_hex(second@)[low]);
            assert(hex_char(first@[i] as int / 16) == hex_char(second@[i] as int / 16));
            assert(hex_char(first@[i] as int % 16) == hex_char(second@[i] as int % 16));
            assert(first@[i] as int / 16 == second@[i] as int / 16);
            assert(first@[i] as int % 16 == second@[i] as int % 16);
        }
        assert(first@ =~= second@);
    }
}

/// An error keeps its kind, its words and its other details through whatever is added to it;
/// it belongs to the operation that met it first, unless it is bound to one outright.
pub proof fn lemma_error_keeps_what_was_said(
    error: AppError,
    name: &str,
    value: &str,
    operation: &str,
    detailed: AppError,
    tried: AppError,
    bound: AppError,
    attached: AppError,
    copy: AppError,
    other: Seq<char>,
)
    requires
        call_ensures(AppError::with_detail, (error, name, value), detailed),
        call_ensures(AppError::as_retryable, (error,), tried),
        call_ensures(AppError::bind_operation_id, (error, operation), bound),
        call_ensures(AppError::attach_operation_id, (error, operation), attached),
        call_ensures(AppError::copy, (&error,), copy),
    ensures
        copy@ == error@,
        detailed.code == error.code && detailed.retryable == error.retryable,
        detailed@.message == error@.message,
        detailed@.details.dom().contains(name@) && detailed@.details[name@] == value@,
        other != name@ ==> (detailed@.details.dom().contains(other)
            <==> error@.details.dom().contains(other)),
        other != name@ && error@.details.dom().contains(other) ==> detailed@.details[other]
            == error@.details[other],
        tried.retryable && tried.code == error.code && tried@.details == error@.details,
        bound.operation_id is Some && bound.operation_id->0@ == operation@,
        bound.code == error.code && bound.retryable == error.retryable && bound@.details
            == error@.details,
        attached.operation_id is Some,
        error.operation_id is Some ==> attached@ == error@,
        error.operation_id is None ==> attached.operation_id->0@ == operation@,
        attached.code == error.code && attached.retryable == error.retryable && attached@.details
            == error@.details,
{
    assert(error@.code == error.code && error@.retryable == error.retryable);
    assert(detailed@.code == detailed.code && detailed@.retryable == detailed.retryable);
    assert(tried@.code == tried.code && tried@.retryable == tried.retryable);
    assert(bound@.code == bound.code && bound@.retryable == bound.retryable);
    assert(attached@.code == attached.code && attached@.retryable == attached.retryable);
    assert(error@.operation_id == crate::error::optional_text(error.operation_id));
    assert(bound@.operation_id == crate::error::optional_text(bound.operation_id));
    assert(attached@.operation_id == crate::error::optional_text(attached.operation_id));
}

} // verus!
