//! Text that names and messages are made of.
use vstd::prelude::*;
use vstd::string::*;
use vstd::utf8::*;

verus! {

/// The decimal digit of a number below ten.
pub open spec fn digit(value: nat) -> char {
    (48 + value) as char
}

/// A number in decimal, without leading zeros.
pub open spec fn decimal(value: nat) -> Seq<char>
    decreases value,
{
    if value < 10 {
        seq![digit(value)]
    } else {
        decimal(value / 10).push(digit(value % 10))
    }
}

/// A signed number in decimal, with a minus sign where it is negative.
pub open spec fn signed_decimal(value: int) -> Seq<char> {
    if value < 0 {
        seq!['-'] + decimal((-value) as nat)
    } else {
        decimal(value as nat)
    }
}

/// Different numbers have different decimal texts.
pub proof fn decimal_is_injective(left: nat, right: nat)
    requires
        decimal(left) == decimal(right),
    ensures
        left == right,
    decreases left,
{
    let a = decimal(left);
    let b = decimal(right);
    assert(a.last() == digit(left % 10));
    assert(b.last() == digit(right % 10));
    assert(left % 10 == right % 10);
    decimal_is_not_empty(left / 10);
    decimal_is_not_empty(right / 10);
    if left >= 10 && right >= 10 {
        assert(a.drop_last() =~= decimal(left / 10));
        assert(b.drop_last() =~= decimal(right / 10));
        decimal_is_injective(left / 10, right / 10);
    }
}

proof fn decimal_is_not_empty(value: nat)
    ensures
        decimal(value).len() > 0,
{
}

/// A number in decimal.
pub fn decimal_text(value: u32) -> (text: String)
    ensures
        text@ == decimal(value as nat),
    decreases value,
{
    let mut text = if value < 10 {
        String::new()
    } else {
        decimal_text(value / 10)
    };
    append_digit(&mut text, value % 10);
    assert(text@ =~= decimal(value as nat));
    text
}

fn append_digit(text: &mut String, value: u32)
    requires
        value < 10,
    ensures
        final(text)@ == old(text)@.push(digit(value as nat)),
{
    proof {
        reveal_strlit("0123456789");
    }
    let digits = "0123456789";
    let one = digits.substring_char(value as usize, value as usize + 1);
    text.append(one);
    assert(text@ =~= old(text)@.push(digit(value as nat)));
}

/// A signed number in decimal.
pub fn signed_decimal_text(value: i32) -> (text: String)
    ensures
        text@ == signed_decimal(value as int),
{
    proof {
        reveal_strlit("-");
    }
    if value >= 0 {
        decimal_text(value as u32)
    } else {
        let magnitude: u32 = (-(value as i64)) as u32;
        let mut text = "-".to_owned();
        assert(text@ =~= seq!['-']);
        text.append(decimal_text(magnitude).as_str());
        text
    }
}

/// The encoding of two texts one behind the other is their encodings one behind the other.
pub proof fn encoding_of_concatenation(left: Seq<char>, right: Seq<char>)
    ensures
        encode_utf8(left + right) == encode_utf8(left) + encode_utf8(right),
    decreases left.len(),
{
    if left.len() == 0 {
        assert(left + right =~= right);
        assert(encode_utf8(left) + encode_utf8(right) =~= encode_utf8(right));
    } else {
        encoding_of_concatenation(left.drop_first(), right);
        assert((left + right).drop_first() =~= left.drop_first() + right);
        assert(encode_utf8(left + right) =~= encode_utf8(left) + encode_utf8(right));
    }
}

/// The decimal text of a number consists of digits.
pub proof fn decimal_has_digits_only(value: nat)
    ensures
        forall|i: int| 0 <= i < decimal(value).len() ==> '0' <= #[trigger] decimal(value)[i] <= '9',
    decreases value,
{
    if value >= 10 {
        decimal_has_digits_only(value / 10);
        assert forall|i: int| 0 <= i < decimal(value).len() implies '0' <= #[trigger] decimal(
            value,
        )[i] <= '9' by {
            if i < decimal(value / 10).len() {
                assert(decimal(value)[i] == decimal(value / 10)[i]);
            }
        }
    }
}

/// Whether two texts are the same.
pub fn same_text(left: &str, right: &str) -> (result: bool)
    ensures
        result == (left@ == right@),
{
    left.to_owned() == right.to_owned()
}

/// What `String::from_utf8_lossy` makes of bytes that are not UTF-8.
pub uninterp spec fn lossy(bytes: Seq<u8>) -> Seq<char>;

/// Bytes as text that can be shown: the text that they encode, where they are UTF-8.
pub open spec fn shown(bytes: Seq<u8>) -> Seq<char> {
    if valid_utf8(bytes) {
        decode_utf8(bytes)
    } else {
        lossy(bytes)
    }
}

/// Bytes as text that can be shown.
///
/// Calls `String::from_utf8_lossy`, which gives the text that the bytes encode where they are
/// UTF-8. Of other bytes the result is named; that each invalid part becomes a replacement
/// character is left unsaid.
#[verifier::external_body]
pub(crate) fn shown_text(bytes: &[u8]) -> (text: String)
    ensures
        valid_utf8(bytes@) ==> text@ == decode_utf8(bytes@),
        !valid_utf8(bytes@) ==> text@ == lossy(bytes@),
{
    String::from_utf8_lossy(bytes).into_owned()
}

/// What the `Debug` format of a string makes of its characters: quotes round them, and
/// escapes.
pub uninterp spec fn quoted(text: Seq<char>) -> Seq<char>;

/// Text as it is quoted in a message.
///
/// Formats with the `Debug` implementation of `str`. The result is named; which characters it
/// escapes is left unsaid.
#[verifier::external_body]
pub(crate) fn quoted_text(text: &str) -> (result: String)
    ensures
        result@ == quoted(text@),
{
    format!("{:?}", text)
}

/// The number that decimal digits stand for.
pub open spec fn numeral(digits: Seq<char>) -> int
    decreases digits.len(),
{
    if digits.len() == 0 {
        0
    } else {
        10 * numeral(digits.drop_last()) + (digits.last() as int - '0' as int)
    }
}

/// The decimal text of a number reads back as that number, and has no zero in front but for the
/// number zero itself.
pub proof fn decimal_reads_back(value: nat)
    ensures
        numeral(decimal(value)) == value,
        decimal(value).len() > 0,
        decimal(value)[0] == '0' <==> value == 0,
        value == 0 ==> decimal(value).len() == 1,
    decreases value,
{
    let text = decimal(value);
    if value < 10 {
        assert(text.drop_last() =~= Seq::<char>::empty());
        assert(numeral(text.drop_last()) == 0);
    } else {
        decimal_reads_back(value / 10);
        assert(text.drop_last() =~= decimal(value / 10));
        assert(text[0] == decimal(value / 10)[0]);
    }
}

/// The decimal text of a signed number starts with a minus sign exactly where it is negative, and
/// the rest reads back as its magnitude.
pub proof fn signed_decimal_reads_back(value: int)
    ensures
        signed_decimal(value).len() > 0,
        signed_decimal(value)[0] == '-' <==> value < 0,
        value >= 0 ==> numeral(signed_decimal(value)) == value,
        value < 0 ==> numeral(signed_decimal(value).skip(1)) == -value,
        forall|i: int|
            1 <= i < signed_decimal(value).len() ==> '0' <= #[trigger] signed_decimal(value)[i]
                <= '9',
{
    let magnitude = if value < 0 {
        (-value) as nat
    } else {
        value as nat
    };
    decimal_reads_back(magnitude);
    decimal_has_digits_only(magnitude);
    if value < 0 {
        assert(signed_decimal(value).skip(1) =~= decimal(magnitude));
        assert forall|i: int| 1 <= i < signed_decimal(value).len() implies '0'
            <= #[trigger] signed_decimal(value)[i] <= '9' by {
            assert(signed_decimal(value)[i] == decimal(magnitude)[i - 1]);
        }
    } else {
        assert('0' <= decimal(magnitude)[0] <= '9');
    }
}

/// Text is shown as it is.
pub proof fn text_is_shown_as_it_is(text: Seq<char>)
    ensures
        shown(encode_utf8(text)) == text,
{
    encode_utf8_valid_utf8(text);
    encode_utf8_decode_utf8(text);
}

} // verus!
