//! Character-level building blocks: decimal formatting of ordinals,
//! decimal parsing of `start` attribute values, and the transformation
//! applied to a rendered item's content (leading-blank collapse followed
//! by continuation-line indentation).

use vstd::prelude::*;

verus! {

/// The decimal digit character for a single digit value.
pub open spec fn digit_to_char(d: nat) -> char {
    if d == 0 {
        '0'
    } else if d == 1 {
        '1'
    } else if d == 2 {
        '2'
    } else if d == 3 {
        '3'
    } else if d == 4 {
        '4'
    } else if d == 5 {
        '5'
    } else if d == 6 {
        '6'
    } else if d == 7 {
        '7'
    } else if d == 8 {
        '8'
    } else {
        '9'
    }
}

/// The decimal representation of `n`, most significant digit first,
/// without leading zeros (the representation of 0 is "0").
pub open spec fn dec_digits(n: nat) -> Seq<char>
    decreases n,
{
    if n < 10 {
        seq![digit_to_char(n)]
    } else {
        dec_digits(n / 10).push(digit_to_char(n % 10))
    }
}

/// Appends the decimal representation of `n` to `out`.
pub fn push_decimal(out: &mut Vec<char>, n: usize)
    ensures
        final(out)@ == old(out)@ + dec_digits(n as nat),
    decreases n,
{
    if n >= 10 {
        push_decimal(out, n / 10);
        out.push(digit_char_of(n % 10));
        assert(final(out)@ =~= old(out)@ + dec_digits(n as nat));
    } else {
        out.push(digit_char_of(n));
        assert(final(out)@ =~= old(out)@ + dec_digits(n as nat));
    }
}

/// The digit character for `d`, which must be a single digit.
fn digit_char_of(d: usize) -> (c: char)
    requires
        d < 10,
    ensures
        c == digit_to_char(d as nat),
{
    if d == 0 {
        '0'
    } else if d == 1 {
        '1'
    } else if d == 2 {
        '2'
    } else if d == 3 {
        '3'
    } else if d == 4 {
        '4'
    } else if d == 5 {
        '5'
    } else if d == 6 {
        '6'
    } else if d == 7 {
        '7'
    } else if d == 8 {
        '8'
    } else {
        '9'
    }
}

/// Whether `c` is an ASCII decimal digit.
pub open spec fn is_digit(c: char) -> bool {
    48 <= c as u32 <= 57
}

/// The numeric value of a digit character (0 for non-digits).
pub open spec fn digit_val(c: char) -> nat {
    if is_digit(c) {
        (c as u32 - 48) as nat
    } else {
        0
    }
}

/// Whether every character of `s` is an ASCII decimal digit.
pub open spec fn all_digits(s: Seq<char>) -> bool {
    forall|i: int| 0 <= i < s.len() ==> is_digit(s[i])
}

/// The value of a digit string read in base 10, most significant first.
pub open spec fn digits_val(s: Seq<char>) -> nat
    decreases s.len(),
{
    if s.len() == 0 {
        0
    } else {
        digits_val(s.drop_last()) * 10 + digit_val(s.last())
    }
}

/// The result of parsing `s` as an unsigned 32-bit decimal integer:
/// an optional leading `+`, then one or more digits, value at most
/// `u32::MAX`; anything else fails.
pub open spec fn parse_u32_spec(s: Seq<char>) -> Option<u32> {
    let body = if s.len() > 0 && s[0] == '+' {
        s.skip(1)
    } else {
        s
    };
    if body.len() > 0 && all_digits(body) && digits_val(body) <= u32::MAX {
        Some(digits_val(body) as u32)
    } else {
        None
    }
}

/// Extending a digit string on the right never decreases its value.
proof fn lemma_digits_val_prefix_le(s: Seq<char>, i: int)
    requires
        0 <= i <= s.len(),
    ensures
        digits_val(s.subrange(0, i)) <= digits_val(s),
    decreases s.len() - i,
{
    if i < s.len() {
        lemma_digits_val_prefix_le(s, i + 1);
        let t = s.subrange(0, i + 1);
        assert(t.drop_last() =~= s.subrange(0, i));
        assert(digits_val(s.subrange(0, i)) * 10 + digit_val(t.last()) >= digits_val(
            s.subrange(0, i),
        ));
    } else {
        assert(s.subrange(0, i) =~= s);
    }
}

/// Parses `s` as an unsigned 32-bit decimal integer, accepting an
/// optional leading `+` before the digits.
pub fn parse_u32(s: &str) -> (r: Option<u32>)
    ensures
        r == parse_u32_spec(s@),
{
    let n = s.unicode_len();
    let mut i: usize = 0;
    if n > 0 && s.get_char(0) == '+' {
        i = 1;
    }
    let ghost body = s@.skip(i as int);
    proof {
        assert(s@.skip(0) =~= s@);
    }
    if i >= n {
        assert(body.len() == 0);
        return None;
    }
    let mut acc: u64 = 0;
    let mut j: usize = i;
    while j < n
        invariant
            i <= j <= n,
            n == s@.len(),
            body == s@.skip(i as int),
            body == (if s@.len() > 0 && s@[0] == '+' {
                s@.skip(1)
            } else {
                s@
            }),
            all_digits(s@.subrange(i as int, j as int)),
            acc == digits_val(s@.subrange(i as int, j as int)),
            acc <= u32::MAX,
        decreases n - j,
    {
        let c = s.get_char(j);
        let u = c as u32;
        if u < 48 || u > 57 {
            assert(body[j - i] == s@[j as int]);
            assert(!all_digits(body));
            return None;
        }
        let d = (u - 48) as u64;
        acc = acc * 10 + d;
        proof {
            let t = s@.subrange(i as int, j + 1);
            assert(t.drop_last() =~= s@.subrange(i as int, j as int));
            assert(t.last() == s@[j as int]);
        }
        if acc > u32::MAX as u64 {
            proof {
                assert(s@.subrange(i as int, j + 1) =~= body.subrange(0, j + 1 - i));
                lemma_digits_val_prefix_le(body, j + 1 - i);
            }
            return None;
        }
        j += 1;
    }
    proof {
        assert(s@.subrange(i as int, n as int) =~= body);
    }
    Some(acc as u32)
}

/// Whether `c` is one of the characters collapsed at the start of a
/// rendered item: a newline or a plain space.
pub open spec fn is_blank(c: char) -> bool {
    c == '\n' || c == ' '
}

/// `s` without its longest leading run of newlines and spaces.
pub open spec fn strip_leading_blank(s: Seq<char>) -> Seq<char>
    decreases s.len(),
{
    if s.len() > 0 && is_blank(s[0]) {
        strip_leading_blank(s.skip(1))
    } else {
        s
    }
}

/// A run of `n` spaces.
pub open spec fn pad_seq(n: nat) -> Seq<char> {
    Seq::new(n, |i: int| ' ')
}

/// `s` with a run of `n` spaces inserted after every newline.
pub open spec fn pad_newlines(s: Seq<char>, n: nat) -> Seq<char>
    decreases s.len(),
{
    if s.len() == 0 {
        Seq::empty()
    } else if s[0] == '\n' {
        seq!['\n'] + pad_seq(n) + pad_newlines(s.skip(1), n)
    } else {
        seq![s[0]] + pad_newlines(s.skip(1), n)
    }
}

/// Padding distributes over extending the string by one character.
proof fn lemma_pad_newlines_push(s: Seq<char>, c: char, n: nat)
    ensures
        pad_newlines(s.push(c), n) == pad_newlines(s, n) + (if c == '\n' {
            seq!['\n'] + pad_seq(n)
        } else {
            seq![c]
        }),
    decreases s.len(),
{
    if s.len() == 0 {
        assert(s.push(c)[0] == c);
        assert(s.push(c).skip(1) =~= Seq::<char>::empty());
        assert(pad_newlines(Seq::<char>::empty(), n) == Seq::<char>::empty());
        if c == '\n' {
            assert(pad_newlines(s.push(c), n) =~= pad_newlines(s, n) + (seq!['\n'] + pad_seq(n)));
        } else {
            assert(pad_newlines(s.push(c), n) =~= pad_newlines(s, n) + seq![c]);
        }
    } else {
        lemma_pad_newlines_push(s.skip(1), c, n);
        assert(s.push(c)[0] == s[0]);
        assert(s.push(c).skip(1) =~= s.skip(1).push(c));
        if s[0] == '\n' {
            assert(pad_newlines(s.push(c), n) =~= pad_newlines(s, n) + (if c == '\n' {
                seq!['\n'] + pad_seq(n)
            } else {
                seq![c]
            }));
        } else {
            assert(pad_newlines(s.push(c), n) =~= pad_newlines(s, n) + (if c == '\n' {
                seq!['\n'] + pad_seq(n)
            } else {
                seq![c]
            }));
        }
    }
}

/// Appends `n` spaces to `out`.
pub fn push_spaces(out: &mut Vec<char>, n: usize)
    ensures
        final(out)@ == old(out)@ + pad_seq(n as nat),
{
    let ghost orig = out@;
    let mut i: usize = 0;
    while i < n
        invariant
            i <= n,
            out@ == orig + pad_seq(i as nat),
        decreases n - i,
    {
        out.push(' ');
        i += 1;
        assert(out@ =~= orig + pad_seq(i as nat));
    }
    assert(out@ =~= orig + pad_seq(n as nat));
}

/// Rewrites the tail of `data` that begins at `start`: removes the
/// leading run of newlines and spaces, then inserts `pad` spaces after
/// every remaining newline, so that continuation lines of a list item
/// are indented under the item's text.
pub fn reindent(data: &mut Vec<char>, start: usize, pad: usize)
    requires
        start <= old(data).len(),
    ensures
        final(data)@ == old(data)@.take(start as int) + pad_newlines(
            strip_leading_blank(old(data)@.skip(start as int)),
            pad as nat,
        ),
{
    let ghost orig = data@;
    let n = data.len();
    let mut k = start;
    while k < n && (data[k] == '\n' || data[k] == ' ')
        invariant
            start <= k <= n,
            n == data@.len(),
            data@ == orig,
            strip_leading_blank(orig.skip(start as int)) == strip_leading_blank(
                orig.skip(k as int),
            ),
        decreases n - k,
    {
        proof {
            assert(orig.skip(k as int)[0] == orig[k as int]);
            assert(orig.skip(k as int).skip(1) =~= orig.skip(k + 1));
        }
        k += 1;
    }
    proof {
        if k < n {
            assert(orig.skip(k as int)[0] == orig[k as int]);
        }
        assert(strip_leading_blank(orig.skip(k as int)) == orig.skip(k as int));
    }
    let mut tail: Vec<char> = Vec::new();
    let mut j = k;
    while j < n
        invariant
            k <= j <= n,
            n == data@.len(),
            data@ == orig,
            tail@ == pad_newlines(orig.subrange(k as int, j as int), pad as nat),
        decreases n - j,
    {
        let c = data[j];
        tail.push(c);
        if c == '\n' {
            push_spaces(&mut tail, pad);
        }
        proof {
            lemma_pad_newlines_push(orig.subrange(k as int, j as int), c, pad as nat);
            assert(orig.subrange(k as int, j + 1) =~= orig.subrange(k as int, j as int).push(c));
        }
        j += 1;
    }
    data.truncate(start);
    data.append(&mut tail);
    proof {
        assert(orig.subrange(k as int, n as int) =~= orig.skip(k as int));
        assert(orig.take(start as int) =~= orig.subrange(0, start as int));
    }
}

/// Whether a string value equals a given literal, compared by contents.
pub fn string_eq_str(s: &String, lit: &str) -> (r: bool)
    ensures
        r == (s@ == lit@),
{
    let other: String = lit.to_owned();
    *s == other
}

} // verus!

