//! Plain-text helpers shared by the parsers and serializers: splitting a
//! character sequence at a separator, joining pieces back together, and
//! the decimal codec for coordinates and plateau sizes.

use vstd::prelude::*;
use vstd::string::*;

verus! {

/// Whether `c` is a decimal digit.
pub open spec fn is_digit(c: char) -> bool {
    48 <= c as u32 <= 57
}

/// The numeric value of a digit character.
pub open spec fn digit_val(c: char) -> int {
    c as u32 - 48
}

/// Whether `s` is a non-empty run of decimal digits.
pub open spec fn is_dec_string(s: Seq<char>) -> bool {
    s.len() > 0 && forall|i: int| 0 <= i < s.len() ==> is_digit(s[i])
}

/// The value of a digit run, most significant digit first.
pub open spec fn dec_val(s: Seq<char>) -> int
    decreases s.len(),
{
    if s.len() == 0 {
        0
    } else {
        dec_val(s.drop_last()) * 10 + digit_val(s.last())
    }
}

/// The number denoted by a token, if any: the token must be a non-empty
/// digit run whose value fits in a `u32`.
pub open spec fn spec_parse_u32(s: Seq<char>) -> Option<u32> {
    if is_dec_string(s) && dec_val(s) <= u32::MAX {
        Some(dec_val(s) as u32)
    } else {
        None
    }
}

/// The digit character for a value in `0..=9`.
pub open spec fn digit_char(d: int) -> char {
    if d == 0 {
        '0'
    } else if d == 1 {
        '1'
    } else if d == 2 {
        '2'
    } else if d == 3 {
        '3'
    } else if d == 4 {
        '4'
    } else if d == 5 {
        '5'
    } else if d == 6 {
        '6'
    } else if d == 7 {
        '7'
    } else if d == 8 {
        '8'
    } else {
        '9'
    }
}

/// The decimal rendering of a non-negative number, without sign or
/// leading zeros (a single `'0'` for zero).
pub open spec fn spec_dec(n: int) -> Seq<char>
    decreases n,
{
    if n <= 9 {
        seq![digit_char(n)]
    } else {
        spec_dec(n / 10) + seq![digit_char(n % 10)]
    }
}

/// The pieces of `s` between occurrences of `sep`: always at least one
/// piece, with empty pieces kept, so that `n` separators yield `n + 1`
/// pieces.
pub open spec fn spec_split(s: Seq<char>, sep: char) -> Seq<Seq<char>>
    decreases s.len(),
{
    if s.len() == 0 {
        seq![Seq::<char>::empty()]
    } else if s[0] == sep {
        seq![Seq::<char>::empty()] + spec_split(s.skip(1), sep)
    } else {
        let rest = spec_split(s.skip(1), sep);
        seq![seq![s[0]] + rest[0]] + rest.skip(1)
    }
}

/// The pieces concatenated with `sep` between consecutive pieces.
pub open spec fn spec_join(ps: Seq<Seq<char>>, sep: char) -> Seq<char>
    decreases ps.len(),
{
    if ps.len() == 0 {
        Seq::empty()
    } else if ps.len() == 1 {
        ps[0]
    } else {
        ps[0] + seq![sep] + spec_join(ps.skip(1), sep)
    }
}

/// The views of a sequence of string slices.
pub open spec fn str_views(ps: Seq<&str>) -> Seq<Seq<char>> {
    ps.map_values(|p: &str| p@)
}

/// Splitting yields at least one piece.
pub proof fn lemma_split_len(s: Seq<char>, sep: char)
    ensures
        spec_split(s, sep).len() >= 1,
    decreases s.len(),
{
    if s.len() != 0 {
        lemma_split_len(s.skip(1), sep);
    }
}

/// A digit run has a non-negative value.
pub proof fn lemma_dec_val_nonneg(s: Seq<char>)
    requires
        forall|i: int| 0 <= i < s.len() ==> is_digit(s[i]),
    ensures
        dec_val(s) >= 0,
    decreases s.len(),
{
    if s.len() != 0 {
        lemma_dec_val_nonneg(s.drop_last());
    }
}

/// Extending a digit run on the right cannot shrink its value: the value
/// of any prefix is a lower bound for the value of the whole run.
pub proof fn lemma_dec_val_prefix(s: Seq<char>, i: int)
    requires
        0 <= i <= s.len(),
        forall|j: int| 0 <= j < s.len() ==> is_digit(s[j]),
    ensures
        dec_val(s.subrange(0, i)) <= dec_val(s),
    decreases s.len() - i,
{
    if i == s.len() {
        assert(s.subrange(0, i) =~= s);
    } else {
        assert(s.subrange(0, i + 1).drop_last() =~= s.subrange(0, i));
        lemma_dec_val_nonneg(s.subrange(0, i));
        lemma_dec_val_prefix(s, i + 1);
    }
}

/// A token with any non-digit character is not a number: no coordinate
/// or size token that fails the digit test parses.
pub proof fn lemma_non_digit_rejected(s: Seq<char>, i: int)
    requires
        0 <= i < s.len(),
        !is_digit(s[i]),
    ensures
        spec_parse_u32(s) is None,
{
}

/// Appending one more piece appends a separator and that piece.
pub proof fn lemma_join_push(ps: Seq<Seq<char>>, x: Seq<char>, sep: char)
    requires
        ps.len() >= 1,
    ensures
        spec_join(ps.push(x), sep) == spec_join(ps, sep) + seq![sep] + x,
    decreases ps.len(),
{
    if ps.len() == 1 {
        assert(ps.push(x).skip(1) =~= seq![x]);
        assert(spec_join(seq![x], sep) == x);
        assert(spec_join(ps.push(x), sep) == ps.push(x)[0] + seq![sep] + spec_join(
            ps.push(x).skip(1),
            sep,
        ));
        assert(spec_join(ps.push(x), sep) =~= ps[0] + seq![sep] + x);
    } else {
        assert(ps.push(x).skip(1) =~= ps.skip(1).push(x));
        lemma_join_push(ps.skip(1), x, sep);
        assert(spec_join(ps.push(x), sep) =~= spec_join(ps, sep) + seq![sep] + x);
    }
}

/// The splitter's intermediate shape: the pieces already emitted, then the
/// partial current piece grafted onto the front of the split of the rest.
spec fn split_state(done: Seq<Seq<char>>, cur: Seq<char>, rest: Seq<Seq<char>>) -> Seq<
    Seq<char>,
>
    recommends
        rest.len() >= 1,
{
    done + seq![cur + rest[0]] + rest.skip(1)
}

/// Splits `s` at every occurrence of `sep`, keeping empty pieces.
pub(crate) fn split_str<'a>(s: &'a str, sep: char) -> (r: Vec<&'a str>)
    ensures
        str_views(r@) == spec_split(s@, sep),
{
    let n: usize = s.unicode_len();
    let mut pieces: Vec<&'a str> = Vec::new();
    let mut start: usize = 0;
    let mut i: usize = 0;
    proof {
        assert(str_views(pieces@) =~= Seq::<Seq<char>>::empty());
        assert(s@.skip(0) =~= s@);
        assert(s@.subrange(0, 0) =~= Seq::<char>::empty());
        lemma_split_len(s@, sep);
        assert(spec_split(s@, sep) =~= split_state(
            str_views(pieces@),
            s@.subrange(0, 0),
            spec_split(s@.skip(0), sep),
        ));
    }
    while i < n
        invariant
            n == s@.len(),
            start <= i <= n,
            spec_split(s@, sep) == split_state(
                str_views(pieces@),
                s@.subrange(start as int, i as int),
                spec_split(s@.skip(i as int), sep),
            ),
        decreases n - i,
    {
        let ghost cur = s@.subrange(start as int, i as int);
        let ghost tail = spec_split(s@.skip(i as int), sep);
        let ghost tail_next = spec_split(s@.skip(i as int + 1), sep);
        proof {
            lemma_split_len(s@.skip(i as int), sep);
            lemma_split_len(s@.skip(i as int + 1), sep);
            assert(s@.skip(i as int)[0] == s@[i as int]);
            assert(s@.skip(i as int).skip(1) =~= s@.skip(i as int + 1));
        }
        let c = s.get_char(i);
        if c == sep {
            let piece: &'a str = s.substring_char(start, i);
            pieces.push(piece);
            proof {
                assert(tail =~= seq![Seq::<char>::empty()] + tail_next);
                assert(tail.skip(1) =~= tail_next);
                assert(str_views(pieces@) =~= str_views(pieces@.drop_last()).push(cur));
                assert(s@.subrange(i as int + 1, i as int + 1) =~= Seq::<char>::empty());
                assert(split_state(str_views(pieces@.drop_last()), cur, tail) =~= split_state(
                    str_views(pieces@),
                    s@.subrange(i as int + 1, i as int + 1),
                    tail_next,
                ));
            }
            start = i + 1;
        } else {
            proof {
                assert(tail =~= seq![seq![s@[i as int]] + tail_next[0]] + tail_next.skip(1));
                assert(tail.skip(1) =~= tail_next.skip(1));
                assert(s@.subrange(start as int, i as int + 1) =~= cur.push(s@[i as int]));
                assert(cur + tail[0] =~= s@.subrange(start as int, i as int + 1) + tail_next[0]);
                assert(split_state(str_views(pieces@), cur, tail) =~= split_state(
                    str_views(pieces@),
                    s@.subrange(start as int, i as int + 1),
                    tail_next,
                ));
            }
        }
        i = i + 1;
    }
    let last: &'a str = s.substring_char(start, n);
    pieces.push(last);
    proof {
        assert(s@.skip(n as int) =~= Seq::<char>::empty());
        let tail = spec_split(s@.skip(n as int), sep);
        assert(tail =~= seq![Seq::<char>::empty()]);
        assert(tail.skip(1) =~= Seq::<Seq<char>>::empty());
        assert(s@.subrange(start as int, n as int) + tail[0] =~= s@.subrange(
            start as int,
            n as int,
        ));
        assert(str_views(pieces@) =~= split_state(
            str_views(pieces@.drop_last()),
            s@.subrange(start as int, n as int),
            tail,
        ));
    }
    pieces
}

/// Parses a whole token as a decimal `u32`: a non-empty digit run whose
/// value is at most `u32::MAX`.
pub(crate) fn parse_u32(s: &str) -> (r: Option<u32>)
    ensures
        r == spec_parse_u32(s@),
{
    let n: usize = s.unicode_len();
    if n == 0 {
        return None;
    }
    let mut acc: u64 = 0;
    let mut i: usize = 0;
    proof {
        assert(s@.subrange(0, 0) =~= Seq::<char>::empty());
    }
    while i < n
        invariant
            n == s@.len(),
            i <= n,
            acc <= u32::MAX,
            acc == dec_val(s@.subrange(0, i as int)),
            forall|j: int| 0 <= j < i ==> is_digit(s@[j]),
        decreases n - i,
    {
        let c = s.get_char(i);
        let u: u32 = c as u32;
        if u < 48 || u > 57 {
            assert(!is_digit(s@[i as int]));
            return None;
        }
        proof {
            assert(s@.subrange(0, i as int + 1).drop_last() =~= s@.subrange(0, i as int));
            assert(s@.subrange(0, i as int + 1).last() == s@[i as int]);
        }
        acc = acc * 10 + ((u - 48) as u64);
        if acc > (u32::MAX as u64) {
            proof {
                if is_dec_string(s@) {
                    lemma_dec_val_prefix(s@, i as int + 1);
                }
            }
            return None;
        }
        i = i + 1;
    }
    proof {
        assert(s@.subrange(0, n as int) =~= s@);
    }
    Some(acc as u32)
}

/// The one-character string for a digit value.
fn digit_str(d: u32) -> (r: &'static str)
    requires
        d <= 9,
    ensures
        r@ == seq![digit_char(d as int)],
{
    let r: &'static str = match d {
        0 => "0",
        1 => "1",
        2 => "2",
        3 => "3",
        4 => "4",
        5 => "5",
        6 => "6",
        7 => "7",
        8 => "8",
        _ => "9",
    };
    proof {
        reveal_strlit("0");
        reveal_strlit("1");
        reveal_strlit("2");
        reveal_strlit("3");
        reveal_strlit("4");
        reveal_strlit("5");
        reveal_strlit("6");
        reveal_strlit("7");
        reveal_strlit("8");
        reveal_strlit("9");
        assert(r@ =~= seq![digit_char(d as int)]);
    }
    r
}

/// Renders `n` in decimal, most significant digit first.
pub(crate) fn dec_string(n: u32) -> (r: String)
    ensures
        r@ == spec_dec(n as int),
    decreases n,
{
    if n <= 9 {
        let r = String::from_str(digit_str(n));
        r
    } else {
        let mut r = dec_string(n / 10);
        r.append(digit_str(n % 10));
        r
    }
}

} // verus!
