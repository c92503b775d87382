use vstd::prelude::*;
use crate::edit::string_push;

verus! {

/// The column ruler shown above the text, from its first column on.
pub open spec fn full_ruler() -> Seq<char> {
    "....+....1....+....2....+....3....+....4....+....5....+....6....+....7....+....8....+....9....+....0....+....1....+....2....+....3....+....4....+....5....+....6....+....7....+....8"@
}

/// The ruler shown when the text is scrolled `h_scroll` pixels to the
/// right, at 8 pixels per column: it begins at the first visible column,
/// and is empty once the scroll is past its end. A position of -8 or less,
/// whose column is negative, gives an empty ruler too.
pub fn ruler_text(h_scroll: i32) -> (ruler: &'static str)
    ensures
        h_scroll <= -8 ==> ruler@ == Seq::<char>::empty(),
        -8 < h_scroll < 8 ==> ruler@ == full_ruler(),
        h_scroll >= 0 && h_scroll / 8 < full_ruler().len() ==> ruler@ == full_ruler().skip(
            h_scroll / 8,
        ),
        h_scroll >= 0 && h_scroll / 8 >= full_ruler().len() ==> ruler@ == Seq::<char>::empty(),
{
    let full = "....+....1....+....2....+....3....+....4....+....5....+....6....+....7....+....8....+....9....+....0....+....1....+....2....+....3....+....4....+....5....+....6....+....7....+....8";
    let empty = "";
    proof {
        reveal_strlit("");
    }
    if h_scroll <= -8 {
        return empty;
    }
    let char_offset: usize = if h_scroll < 0 {
        0
    } else {
        (h_scroll / 8) as usize
    };
    let len = full.unicode_len();
    if char_offset < len {
        full.substring_char(char_offset, len)
    } else {
        empty
    }
}

/// The chars of the decimal digits 0 to 9.
pub open spec fn digit_chars() -> Seq<char> {
    seq!['0', '1', '2', '3', '4', '5', '6', '7', '8', '9']
}

/// The decimal notation of `n`, without leading zeros.
pub open spec fn decimal(n: nat) -> Seq<char>
    decreases n,
{
    if n < 10 {
        seq![digit_chars()[n as int]]
    } else {
        decimal(n / 10).push(digit_chars()[(n % 10) as int])
    }
}

/// The numbers 1 to `count`, in decimal, one per line, with CR LF between
/// them.
pub open spec fn line_numbers(count: nat) -> Seq<char>
    decreases count,
{
    if count == 0 {
        Seq::empty()
    } else if count == 1 {
        decimal(1)
    } else {
        line_numbers((count - 1) as nat) + seq!['\r', '\n'] + decimal(count)
    }
}

/// The number that a string of decimal digits stands for.
pub open spec fn digits_value(digits: Seq<char>) -> nat
    decreases digits.len(),
{
    if digits.len() == 0 {
        0
    } else {
        digits_value(digits.drop_last()) * 10 + ((digits.last() as int - '0' as int) as nat)
    }
}

/// Every char of `digits` is one of `0` to `9`.
pub open spec fn all_digits(digits: Seq<char>) -> bool {
    forall|i: int| 0 <= i < digits.len() ==> '0' <= #[trigger] digits[i] <= '9'
}

/// The digit char for `d` stands for `d`.
proof fn lemma_digit_char(d: int)
    requires
        0 <= d < 10,
    ensures
        '0' <= digit_chars()[d] <= '9',
        digit_chars()[d] as int - '0' as int == d,
{
    assert(digit_chars()[0] == '0');
    assert(digit_chars()[1] == '1');
    assert(digit_chars()[2] == '2');
    assert(digit_chars()[3] == '3');
    assert(digit_chars()[4] == '4');
    assert(digit_chars()[5] == '5');
    assert(digit_chars()[6] == '6');
    assert(digit_chars()[7] == '7');
    assert(digit_chars()[8] == '8');
    assert(digit_chars()[9] == '9');
}

/// The decimal notation of `n` is a non-empty string of digits, without a
/// leading zero unless `n` is zero, that stands for `n`.
pub proof fn law_decimal_notation(n: nat)
    ensures
        decimal(n).len() >= 1,
        all_digits(decimal(n)),
        digits_value(decimal(n)) == n,
        n >= 10 ==> decimal(n)[0] != '0',
    decreases n,
{
    lemma_digit_char((n % 10) as int);
    if n < 10 {
        assert(decimal(n).drop_last() =~= Seq::<char>::empty());
        assert(decimal(n)[0] == digit_chars()[n as int]);
        assert(decimal(n).last() == digit_chars()[(n % 10) as int]);
        assert(digits_value(decimal(n)) == digits_value(decimal(n).drop_last()) * 10 + ((decimal(n).last() as int - '0' as int) as nat));
        assert(digits_value(Seq::<char>::empty()) == 0);
    } else {
        law_decimal_notation(n / 10);
        let d = decimal(n / 10);
        let c = digit_chars()[(n % 10) as int];
        assert(decimal(n) == d.push(c));
        assert(decimal(n).drop_last() =~= d);
        assert(decimal(n).last() == c);
        assert(digits_value(decimal(n)) == digits_value(d) * 10 + ((c as int - '0' as int) as nat));
        assert((n / 10) * 10 + n % 10 == n);
        assert forall|i: int| 0 <= i < decimal(n).len() implies '0' <= #[trigger] decimal(n)[i] <= '9' by {
            if i < d.len() {
                assert(decimal(n)[i] == d[i]);
            }
        }
        if n / 10 >= 10 {
            assert(decimal(n)[0] == d[0]);
        } else {
            assert(decimal(n)[0] == d[0]);
            lemma_digit_char((n / 10) as int);
            assert(d[0] == digit_chars()[(n / 10) as int]);
        }
    }
}

/// The line-number column for no lines is empty, for one line is `1`, and
/// for one line more is the column for one line less, a CR LF, and the new
/// line's number: so for `count` lines it holds the numbers 1 to `count`,
/// in order, one per line, whatever `count` is.
pub proof fn law_line_numbers_grow_by_one(count: nat)
    ensures
        line_numbers(0) == Seq::<char>::empty(),
        line_numbers(1) == seq!['1'],
        count >= 1 ==> line_numbers(count + 1) == line_numbers(count) + seq!['\r', '\n'] + decimal(
            count + 1,
        ),
{
    assert(decimal(1) == seq![digit_chars()[1]]);
    assert(line_numbers(1) =~= seq!['1']);
}

/// Appends the decimal notation of `n` to `s`.
fn push_decimal(s: &mut String, n: usize)
    ensures
        final(s)@ == old(s)@ + decimal(n as nat),
    decreases n,
{
    let digits = ['0', '1', '2', '3', '4', '5', '6', '7', '8', '9'];
    if n >= 10 {
        push_decimal(s, n / 10);
    }
    assert(digits@ =~= digit_chars());
    string_push(s, digits[n % 10]);
    if n >= 10 {
        assert(decimal(n as nat) == decimal((n / 10) as nat).push(digit_chars()[(n % 10) as int]));
        assert(old(s)@ + decimal(n as nat) =~= old(s)@ + decimal((n / 10) as nat) + seq![
            digit_chars()[(n % 10) as int],
        ]);
    } else {
        assert(old(s)@ + decimal(n as nat) =~= old(s)@.push(digit_chars()[n as int]));
    }
}

/// The text of the line-number column for a text of `line_count` lines:
/// the numbers 1 to `line_count`, one per line.
pub fn line_numbers_text(line_count: usize) -> (text: String)
    ensures
        text@ == line_numbers(line_count as nat),
{
    let mut text = String::new();
    let mut i: usize = 0;
    while i < line_count
        invariant
            i <= line_count,
            text@ == line_numbers(i as nat),
        decreases line_count - i,
    {
        if i > 0 {
            string_push(&mut text, '\r');
            string_push(&mut text, '\n');
        }
        push_decimal(&mut text, i + 1);
        assert(text@ =~= line_numbers((i + 1) as nat));
        i = i + 1;
    }
    text
}

} // verus!
