//! Text built from literals, strings and decimal numbers.
use vstd::prelude::*;
use vstd::string::StringExecFns;

verus! {

/// The one-character text of a decimal digit.
pub open spec fn digit_text(digit: nat) -> Seq<char> {
    if digit == 0 {
        "0"@
    } else if digit == 1 {
        "1"@
    } else if digit == 2 {
        "2"@
    } else if digit == 3 {
        "3"@
    } else if digit == 4 {
        "4"@
    } else if digit == 5 {
        "5"@
    } else if digit == 6 {
        "6"@
    } else if digit == 7 {
        "7"@
    } else if digit == 8 {
        "8"@
    } else {
        "9"@
    }
}

/// The decimal notation of `number`, without leading zeros.
pub open spec fn decimal_text(number: nat) -> Seq<char>
    decreases number,
{
    if number < 10 {
        digit_text(number)
    } else {
        decimal_text(number / 10) + digit_text(number % 10)
    }
}

fn digit(value: u64) -> (text: &'static str)
    requires
        value < 10,
    ensures
        text@ == digit_text(value as nat),
{
    if value == 0 {
        "0"
    } else if value == 1 {
        "1"
    } else if value == 2 {
        "2"
    } else if value == 3 {
        "3"
    } else if value == 4 {
        "4"
    } else if value == 5 {
        "5"
    } else if value == 6 {
        "6"
    } else if value == 7 {
        "7"
    } else if value == 8 {
        "8"
    } else {
        "9"
    }
}

/// Writes `number` in decimal notation.
pub fn decimal(number: u64) -> (text: String)
    ensures
        text@ == decimal_text(number as nat),
    decreases number,
{
    if number < 10 {
        digit(number).to_owned()
    } else {
        let mut text = decimal(number / 10);
        text.append(digit(number % 10));
        text
    }
}

/// Lexicographic order of two byte sequences.
pub open spec fn bytes_before(a: Seq<u8>, b: Seq<u8>) -> bool
    decreases a.len(),
{
    if b.len() == 0 {
        false
    } else if a.len() == 0 {
        true
    } else if a[0] == b[0] {
        bytes_before(a.drop_first(), b.drop_first())
    } else {
        a[0] < b[0]
    }
}

/// Order of two texts: that of their UTF-8 bytes.
pub open spec fn text_before(a: Seq<char>, b: Seq<char>) -> bool {
    bytes_before(vstd::utf8::encode_utf8(a), vstd::utf8::encode_utf8(b))
}

proof fn lemma_bytes_order(a: Seq<u8>, b: Seq<u8>, c: Seq<u8>)
    ensures
        !bytes_before(a, a),
        bytes_before(a, b) && bytes_before(b, c) ==> bytes_before(a, c),
        a == b || bytes_before(a, b) || bytes_before(b, a),
    decreases a.len() + b.len() + c.len(),
{
    if a.len() > 0 && b.len() > 0 && c.len() > 0 {
        lemma_bytes_order(a.drop_first(), b.drop_first(), c.drop_first());
    } else if a.len() > 0 && b.len() > 0 {
        lemma_bytes_order(a.drop_first(), b.drop_first(), c);
    } else if a.len() > 0 {
        lemma_bytes_order(a.drop_first(), b, c);
    }
    if a.len() == 0 && b.len() == 0 {
        assert(a =~= b);
    }
    if a.len() > 0 && b.len() > 0 && a[0] == b[0] && a.drop_first() == b.drop_first() {
        assert(a =~= seq![a[0]] + a.drop_first());
        assert(b =~= seq![b[0]] + b.drop_first());
    }
}

/// The order of texts is strict, transitive and total.
pub proof fn lemma_text_order(a: Seq<char>, b: Seq<char>, c: Seq<char>)
    ensures
        !text_before(a, a),
        text_before(a, b) && text_before(b, c) ==> text_before(a, c),
        a == b || text_before(a, b) || text_before(b, a),
{
    lemma_bytes_order(
        vstd::utf8::encode_utf8(a),
        vstd::utf8::encode_utf8(b),
        vstd::utf8::encode_utf8(c),
    );
    vstd::utf8::encode_utf8_decode_utf8(a);
    vstd::utf8::encode_utf8_decode_utf8(b);
}

/// Whether `a` stands before `b` in the order of their bytes.
pub fn precedes(a: &str, b: &str) -> (result: bool)
    ensures
        result == text_before(a@, b@),
{
    let left = a.as_bytes();
    let right = b.as_bytes();
    let mut at: usize = 0;
    assert(left@.skip(0) =~= left@);
    assert(right@.skip(0) =~= right@);
    while at < left.len() && at < right.len() && left[at] == right[at]
        invariant
            at <= left@.len(),
            at <= right@.len(),
            bytes_before(left@, right@) == bytes_before(left@.skip(at as int), right@.skip(at as int)),
        decreases left@.len() - at,
    {
        assert(left@.skip(at as int).drop_first() =~= left@.skip(at + 1));
        assert(right@.skip(at as int).drop_first() =~= right@.skip(at + 1));
        at = at + 1;
    }
    if at == right.len() {
        false
    } else if at == left.len() {
        true
    } else {
        left[at] < right[at]
    }
}

/// A text as `std` quotes it for debugging.
pub uninterp spec fn quoted_text(text: Seq<char>) -> Seq<char>;

/// `format!("{:?}")` of a text: the text in quotation marks, with special
/// characters escaped. Which characters are escaped, and how, is left unsaid.
#[verifier::external_body]
pub(crate) fn quote(text: &str) -> (quoted: String)
    ensures
        quoted@ == quoted_text(text@),
{
    format!("{:?}", text)
}

/// Writes a text with another behind it.
pub fn joined(front: &str, back: &str) -> (text: String)
    ensures
        text@ == front@ + back@,
{
    let mut text = front.to_owned();
    text.append(back);
    text
}

/// The number that a sequence of decimal digits reads as.
pub open spec fn reads_as(digits: Seq<char>) -> nat
    decreases digits.len(),
{
    if digits.len() == 0 {
        0
    } else {
        reads_as(digits.drop_last()) * 10 + (digits.last() as nat - '0' as nat) as nat
    }
}

proof fn lemma_digit(digit: nat)
    requires
        digit < 10,
    ensures
        digit_text(digit).len() == 1,
        digit_text(digit)[0] as nat == '0' as nat + digit,
{
    reveal_strlit("0");
    reveal_strlit("1");
    reveal_strlit("2");
    reveal_strlit("3");
    reveal_strlit("4");
    reveal_strlit("5");
    reveal_strlit("6");
    reveal_strlit("7");
    reveal_strlit("8");
    reveal_strlit("9");
}

/// A number is written in digits that read as that number, without a leading
/// zero. So no two numbers are written alike.
pub proof fn law_decimal_reads_back(number: nat)
    ensures
        reads_as(decimal_text(number)) == number,
        decimal_text(number).len() > 0,
        forall|i: int|
            0 <= i < decimal_text(number).len() ==> '0' as nat
                <= #[trigger] decimal_text(number)[i] as nat <= '9' as nat,
        number > 0 ==> decimal_text(number)[0] != '0',
    decreases number,
{
    reveal_with_fuel(reads_as, 2);
    if number < 10 {
        lemma_digit(number);
        assert(digit_text(number).drop_last().len() == 0);
    } else {
        let front = decimal_text(number / 10);
        let last = digit_text(number % 10);
        law_decimal_reads_back(number / 10);
        lemma_digit(number % 10);
        let text = decimal_text(number);
        assert(text.drop_last() =~= front);
        assert(text.last() == last[0]);
        assert(text[0] == front[0]);
        assert forall|i: int| 0 <= i < text.len() implies '0' as nat <= #[trigger] text[i] as nat
            <= '9' as nat by {
            if i < front.len() {
                assert(text[i] == front[i]);
            }
        }
    }
}

/// Whether `a` and `b` agree before `at`, where `a` ends first or holds the
/// smaller byte.
pub open spec fn parts_at(a: Seq<u8>, b: Seq<u8>, at: int) -> bool {
    &&& 0 <= at < b.len()
    &&& at <= a.len()
    &&& forall|i: int| 0 <= i < at ==> #[trigger] a[i] == b[i]
    &&& at < a.len() ==> a[at] < b[at]
}

/// Bytes stand in the order of a dictionary: one sequence stands before another
/// exactly when there is a first place where they part, and there the one ends or
/// has the smaller byte.
pub proof fn law_order_is_that_of_a_dictionary(a: Seq<u8>, b: Seq<u8>)
    ensures
        bytes_before(a, b) <==> exists|at: int| parts_at(a, b, at),
    decreases a.len(),
{
    if b.len() > 0 && a.len() > 0 && a[0] == b[0] {
        let left = a.drop_first();
        let right = b.drop_first();
        law_order_is_that_of_a_dictionary(left, right);
        if bytes_before(a, b) {
            let at = choose|at: int| parts_at(left, right, at);
            assert forall|i: int| 0 <= i < at + 1 implies #[trigger] a[i] == b[i] by {
                if i > 0 {
                    assert(left[i - 1] == right[i - 1]);
                }
            }
            assert(parts_at(a, b, at + 1));
        }
        if exists|at: int| parts_at(a, b, at) {
            let at = choose|at: int| parts_at(a, b, at);
            assert(at > 0);
            assert forall|i: int| 0 <= i < at - 1 implies #[trigger] left[i] == right[i] by {
                assert(a[i + 1] == b[i + 1]);
            }
            assert(parts_at(left, right, at - 1));
        }
    } else if b.len() > 0 {
        if bytes_before(a, b) {
            assert(parts_at(a, b, 0));
        }
        if exists|at: int| parts_at(a, b, at) {
            let at = choose|at: int| parts_at(a, b, at);
            if at > 0 {
                assert(a[0] == b[0]);
            }
        }
    }
}

} // verus!
