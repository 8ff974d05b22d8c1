//! Decimal text: rendering an unsigned number as digits and reading one
//! back. Used by the report tables, the state descriptions, and the lookup
//! of a change by the text of its number.

use vstd::prelude::*;

verus! {

/// The digit character for a value between 0 and 9.
pub open spec fn spec_digit_char(d: int) -> char {
    if d == 0 {
        '0'
    } else if d == 1 {
        '1'
    } else if d == 2 {
        '2'
    } else if d == 3 {
        '3'
    } else if d == 4 {
        '4'
    } else if d == 5 {
        '5'
    } else if d == 6 {
        '6'
    } else if d == 7 {
        '7'
    } else if d == 8 {
        '8'
    } else {
        '9'
    }
}

/// The decimal rendering of `x`, most significant digit first, with no
/// leading zeros (zero itself renders as one digit).
pub open spec fn spec_decimal(x: nat) -> Seq<char>
    decreases x,
{
    if x < 10 {
        seq![spec_digit_char(x as int)]
    } else {
        spec_decimal(x / 10).push(spec_digit_char((x % 10) as int))
    }
}

/// The characters of a digit stack listed least significant first, read
/// back out most significant first.
spec fn rev_digit_chars(s: Seq<u64>) -> Seq<char>
    decreases s.len(),
{
    if s.len() == 0 {
        Seq::empty()
    } else {
        seq![spec_digit_char(s.last() as int)] + rev_digit_chars(s.drop_last())
    }
}

proof fn lemma_rev_digit_chars_push(s: Seq<u64>, d: u64)
    ensures
        rev_digit_chars(s.push(d)) == seq![spec_digit_char(d as int)] + rev_digit_chars(s),
{
    assert(s.push(d).last() == d);
    assert(s.push(d).drop_last() =~= s);
}

proof fn lemma_rev_digit_chars_first(s: Seq<u64>)
    requires
        s.len() > 0,
    ensures
        rev_digit_chars(s) == rev_digit_chars(s.drop_first()) + seq![spec_digit_char(
            s.first() as int,
        )],
    decreases s.len(),
{
    if s.len() == 1 {
        assert(s.drop_last() =~= Seq::empty());
        assert(s.drop_first() =~= Seq::empty());
        assert(rev_digit_chars(s) =~= rev_digit_chars(s.drop_first()) + seq![spec_digit_char(
            s.first() as int,
        )]);
    } else {
        lemma_rev_digit_chars_first(s.drop_last());
        assert(s.drop_last().first() == s.first());
        assert(s.drop_last().drop_first() =~= s.drop_first().drop_last());
        assert(s.drop_first().last() == s.last());
        assert(rev_digit_chars(s) =~= rev_digit_chars(s.drop_first()) + seq![spec_digit_char(
            s.first() as int,
        )]);
    }
}

/// A one-character string for a digit value.
fn digit_str(d: u64) -> (r: &'static str)
    requires
        d < 10,
    ensures
        r@ == seq![spec_digit_char(d as int)],
{
    let r: &'static str = if d == 0 {
        "0"
    } else if d == 1 {
        "1"
    } else if d == 2 {
        "2"
    } else if d == 3 {
        "3"
    } else if d == 4 {
        "4"
    } else if d == 5 {
        "5"
    } else if d == 6 {
        "6"
    } else if d == 7 {
        "7"
    } else if d == 8 {
        "8"
    } else {
        "9"
    };
    proof {
        reveal_strlit("0");
        reveal_strlit("1");
        reveal_strlit("2");
        reveal_strlit("3");
        reveal_strlit("4");
        reveal_strlit("5");
        reveal_strlit("6");
        reveal_strlit("7");
        reveal_strlit("8");
        reveal_strlit("9");
        assert(r@ =~= seq![spec_digit_char(d as int)]);
    }
    r
}

/// Renders `x` in decimal.
pub fn u64_to_string(x: u64) -> (r: String)
    ensures
        r@ == spec_decimal(x as nat),
{
    let mut stack: Vec<u64> = Vec::new();
    let mut rest: u64 = x;
    loop
        invariant_except_break
            rest == 0 ==> stack@.len() == 0 && x == 0,
        invariant
            rest <= x,
            forall|i: int| 0 <= i < stack@.len() ==> stack@[i] < 10,
            rest > 0 ==> spec_decimal(x as nat) == spec_decimal(rest as nat) + rev_digit_chars(
                stack@,
            ),
        ensures
            forall|i: int| 0 <= i < stack@.len() ==> stack@[i] < 10,
            spec_decimal(x as nat) == rev_digit_chars(stack@),
        decreases rest,
    {
        let ghost s0 = stack@;
        let ghost r0 = rest;
        let d = rest % 10;
        stack.push(d);
        rest = rest / 10;
        proof {
            lemma_rev_digit_chars_push(s0, d);
            if r0 == 0 {
                assert(x == 0);
                assert(s0 =~= Seq::empty());
                assert(rev_digit_chars(stack@) =~= spec_decimal(0));
            } else if r0 < 10 {
                assert(spec_decimal(r0 as nat) == seq![spec_digit_char(r0 as int)]);
                assert(spec_decimal(x as nat) =~= rev_digit_chars(stack@));
            } else {
                assert(spec_decimal(r0 as nat) == spec_decimal((r0 / 10) as nat).push(
                    spec_digit_char((r0 % 10) as int),
                ));
                assert(spec_decimal(r0 as nat) =~= spec_decimal((r0 / 10) as nat) + seq![
                    spec_digit_char((r0 % 10) as int),
                ]);
                assert(spec_decimal(x as nat) =~= spec_decimal(rest as nat) + rev_digit_chars(
                    stack@,
                ));
            }
        }
        if rest == 0 {
            break;
        }
    }
    let mut out = String::new();
    let mut i: usize = stack.len();
    while i > 0
        invariant
            i <= stack@.len(),
            forall|j: int| 0 <= j < stack@.len() ==> stack@[j] < 10,
            out@ == rev_digit_chars(stack@.skip(i as int)),
        decreases i,
    {
        i = i - 1;
        out.append(digit_str(stack[i]));
        proof {
            lemma_rev_digit_chars_first(stack@.skip(i as int));
            assert(stack@.skip(i as int).drop_first() =~= stack@.skip(i as int + 1));
            assert(stack@.skip(i as int).first() == stack@[i as int]);
            assert(out@ =~= rev_digit_chars(stack@.skip(i as int)));
        }
    }
    proof {
        assert(stack@.skip(0) =~= stack@);
        assert(spec_decimal(x as nat) == rev_digit_chars(stack@));
    }
    out
}

/// Whether `c` is a decimal digit.
pub open spec fn spec_is_digit(c: char) -> bool {
    48 <= c as int <= 57
}

/// The value of a digit character.
pub open spec fn spec_digit_val(c: char) -> int {
    c as int - 48
}

/// The number denoted by a sequence of digit characters, most significant
/// first. Meaningful only when every character is a digit.
pub open spec fn spec_digits_val(s: Seq<char>) -> nat
    decreases s.len(),
{
    if s.len() == 0 {
        0
    } else {
        spec_digits_val(s.drop_last()) * 10 + (if spec_is_digit(s.last()) {
            spec_digit_val(s.last()) as nat
        } else {
            0
        })
    }
}

/// The number a piece of text denotes: defined exactly when the text is
/// nonempty, all digits, and the value fits in a `u64`.
pub open spec fn spec_parse_u64(s: Seq<char>) -> Option<u64> {
    if s.len() > 0 && (forall|i: int| 0 <= i < s.len() ==> spec_is_digit(s[i])) && spec_digits_val(
        s,
    ) <= u64::MAX {
        Some(spec_digits_val(s) as u64)
    } else {
        None
    }
}

/// Appending digits never shrinks the value.
proof fn lemma_digits_val_prefix(s: Seq<char>, n: int)
    requires
        0 <= n <= s.len(),
    ensures
        spec_digits_val(s) >= spec_digits_val(s.take(n)),
    decreases s.len() - n,
{
    if n < s.len() {
        lemma_digits_val_prefix(s, n + 1);
        assert(s.take(n + 1).drop_last() =~= s.take(n));
        assert(s.take(n + 1).last() == s[n]);
        assert(spec_digits_val(s.take(n + 1)) >= spec_digits_val(s.take(n)));
    } else {
        assert(s.take(n) =~= s);
    }
}

/// Reads a decimal number. Returns `None` on an empty text, on any
/// non-digit character, and on a value that does not fit in a `u64`.
pub fn parse_u64(s: &str) -> (r: Option<u64>)
    ensures
        r == spec_parse_u64(s@),
{
    let n = s.unicode_len();
    if n == 0 {
        return None;
    }
    let mut acc: u64 = 0;
    let mut i: usize = 0;
    while i < n
        invariant
            n == s@.len(),
            0 <= i <= n,
            forall|j: int| 0 <= j < i ==> spec_is_digit(s@[j]),
            acc == spec_digits_val(s@.take(i as int)),
        decreases n - i,
    {
        let c = s.get_char(i);
        let u = c as u32;
        if u < 48 || u > 57 {
            return None;
        }
        let d: u64 = (u - 48) as u64;
        proof {
            assert(s@.take(i as int + 1).drop_last() =~= s@.take(i as int));
            assert(s@.take(i as int + 1).last() == s@[i as int]);
        }
        if acc > (u64::MAX - d) / 10 {
            proof {
                lemma_digits_val_prefix(s@, i as int + 1);
                assert(spec_digits_val(s@.take(i as int + 1)) == acc * 10 + d);
            }
            return None;
        }
        acc = acc * 10 + d;
        i = i + 1;
    }
    proof {
        assert(s@.take(n as int) =~= s@);
    }
    Some(acc)
}

/// Lexicographic order on text, by code point; on these names it agrees
/// with the byte order Rust's own string comparison uses.
pub open spec fn spec_str_le(a: Seq<char>, b: Seq<char>) -> bool
    decreases a.len(),
{
    if a.len() == 0 {
        true
    } else if b.len() == 0 {
        false
    } else if (a[0] as int) < (b[0] as int) {
        true
    } else if (a[0] as int) > (b[0] as int) {
        false
    } else {
        spec_str_le(a.drop_first(), b.drop_first())
    }
}

/// The order is total.
pub proof fn lemma_str_le_total(a: Seq<char>, b: Seq<char>)
    ensures
        spec_str_le(a, b) || spec_str_le(b, a),
    decreases a.len(),
{
    if a.len() == 0 || b.len() == 0 {
    } else if (a[0] as int) == (b[0] as int) {
        lemma_str_le_total(a.drop_first(), b.drop_first());
    }
}

/// The order is transitive.
pub proof fn lemma_str_le_trans(a: Seq<char>, b: Seq<char>, c: Seq<char>)
    requires
        spec_str_le(a, b),
        spec_str_le(b, c),
    ensures
        spec_str_le(a, c),
    decreases a.len(),
{
    if a.len() == 0 || b.len() == 0 || c.len() == 0 {
    } else if (a[0] as int) == (b[0] as int) && (b[0] as int) == (c[0] as int) {
        lemma_str_le_trans(a.drop_first(), b.drop_first(), c.drop_first());
    }
}

/// Compares two texts in the order of `spec_str_le`.
pub fn str_le(a: &String, b: &String) -> (r: bool)
    ensures
        r == spec_str_le(a@, b@),
{
    let an = a.as_str().unicode_len();
    let bn = b.as_str().unicode_len();
    proof {
        assert(a@.skip(0) =~= a@);
        assert(b@.skip(0) =~= b@);
    }
    let mut i: usize = 0;
    loop
        invariant
            0 <= i <= an,
            i <= bn,
            an == a@.len(),
            bn == b@.len(),
            spec_str_le(a@, b@) == spec_str_le(a@.skip(i as int), b@.skip(i as int)),
        decreases an - i,
    {
        if i == an {
            return true;
        }
        if i == bn {
            proof {
                assert(a@.skip(i as int).len() > 0);
                assert(b@.skip(i as int).len() == 0);
            }
            return false;
        }
        let ca = a.as_str().get_char(i);
        let cb = b.as_str().get_char(i);
        proof {
            assert(a@.skip(i as int)[0] == a@[i as int]);
            assert(b@.skip(i as int)[0] == b@[i as int]);
            assert(a@.skip(i as int).drop_first() =~= a@.skip(i as int + 1));
            assert(b@.skip(i as int).drop_first() =~= b@.skip(i as int + 1));
        }
        if (ca as u32) < (cb as u32) {
            return true;
        }
        if (ca as u32) > (cb as u32) {
            return false;
        }
        i = i + 1;
    }
}

} // verus!
