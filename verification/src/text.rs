//! Text shaping for the rendered page: decimal formatting, month
//! abbreviations, and visible-length truncation that keeps combining marks
//! attached to their base characters.

use vstd::prelude::*;

verus! {

pub open spec fn spec_digit_char(d: int) -> char {
    if d == 0 {
        '0'
    } else if d == 1 {
        '1'
    } else if d == 2 {
        '2'
    } else if d == 3 {
        '3'
    } else if d == 4 {
        '4'
    } else if d == 5 {
        '5'
    } else if d == 6 {
        '6'
    } else if d == 7 {
        '7'
    } else if d == 8 {
        '8'
    } else {
        '9'
    }
}

/// Decimal digits of a non-negative number, most significant first.
pub open spec fn spec_dec(n: int) -> Seq<char>
    decreases n,
{
    if n < 10 {
        seq![spec_digit_char(n)]
    } else {
        spec_dec(n / 10).push(spec_digit_char(n % 10))
    }
}

/// Two-digit decimal form, zero-padded.
pub open spec fn spec_pad2(n: int) -> Seq<char> {
    if n < 10 {
        seq!['0'].add(spec_dec(n))
    } else {
        spec_dec(n)
    }
}

fn digit_str(d: u64) -> (r: &'static str)
    requires
        d < 10,
    ensures
        r@ =~= seq![spec_digit_char(d as int)],
{
    proof {
        reveal_strlit("0");
        reveal_strlit("1");
        reveal_strlit("2");
        reveal_strlit("3");
        reveal_strlit("4");
        reveal_strlit("5");
        reveal_strlit("6");
        reveal_strlit("7");
        reveal_strlit("8");
        reveal_strlit("9");
    }
    if d == 0 {
        "0"
    } else if d == 1 {
        "1"
    } else if d == 2 {
        "2"
    } else if d == 3 {
        "3"
    } else if d == 4 {
        "4"
    } else if d == 5 {
        "5"
    } else if d == 6 {
        "6"
    } else if d == 7 {
        "7"
    } else if d == 8 {
        "8"
    } else {
        "9"
    }
}

/// Formats a number in decimal.
pub fn dec_u64(n: u64) -> (r: String)
    ensures
        r@ == spec_dec(n as int),
    decreases n,
{
    if n < 10 {
        digit_str(n).to_owned()
    } else {
        let mut s = dec_u64(n / 10);
        s.append(digit_str(n % 10));
        proof {
            assert(s@ =~= spec_dec(n as int));
        }
        s
    }
}

/// Formats a number in decimal, zero-padded to two digits.
pub fn pad2(n: u8) -> (r: String)
    ensures
        r@ == spec_pad2(n as int),
{
    if n < 10 {
        let mut s = digit_str(0).to_owned();
        s.append(digit_str(n as u64));
        proof {
            assert(s@ =~= spec_pad2(n as int));
        }
        s
    } else {
        dec_u64(n as u64)
    }
}

/// The uppercase three-letter abbreviation of a month.
pub open spec fn spec_month_abbr(m: int) -> Seq<char> {
    if m == 1 {
        "JAN"@
    } else if m == 2 {
        "FEB"@
    } else if m == 3 {
        "MAR"@
    } else if m == 4 {
        "APR"@
    } else if m == 5 {
        "MAY"@
    } else if m == 6 {
        "JUN"@
    } else if m == 7 {
        "JUL"@
    } else if m == 8 {
        "AUG"@
    } else if m == 9 {
        "SEP"@
    } else if m == 10 {
        "OCT"@
    } else if m == 11 {
        "NOV"@
    } else {
        "DEC"@
    }
}

/// Uppercase three-letter abbreviation of month `m`, 1 through 12.
pub fn month_abbr(m: u8) -> (r: String)
    requires
        1 <= m <= 12,
    ensures
        r@ == spec_month_abbr(m as int),
{
    if m == 1 {
        String::from_str("JAN")
    } else if m == 2 {
        String::from_str("FEB")
    } else if m == 3 {
        String::from_str("MAR")
    } else if m == 4 {
        String::from_str("APR")
    } else if m == 5 {
        String::from_str("MAY")
    } else if m == 6 {
        String::from_str("JUN")
    } else if m == 7 {
        String::from_str("JUL")
    } else if m == 8 {
        String::from_str("AUG")
    } else if m == 9 {
        String::from_str("SEP")
    } else if m == 10 {
        String::from_str("OCT")
    } else if m == 11 {
        String::from_str("NOV")
    } else {
        String::from_str("DEC")
    }
}

/// Thai combining marks: vowel and tone signs drawn above or below their base
/// character, which carry no width of their own.
pub open spec fn spec_is_mark(c: char) -> bool {
    ||| c as int == 0xE31
    ||| 0xE38 <= c as int <= 0xE3E
    ||| 0xE47 <= c as int <= 0xE4E
}

pub fn is_mark(c: char) -> (r: bool)
    ensures
        r == spec_is_mark(c),
{
    let v = c as u32;
    v == 0xE31 || (0xE38 <= v && v <= 0xE3E) || (0xE47 <= v && v <= 0xE4E)
}

/// Number of visible characters: all characters that are not combining marks.
pub open spec fn spec_visible_count(s: Seq<char>) -> int
    decreases s.len(),
{
    if s.len() == 0 {
        0
    } else {
        spec_visible_count(s.drop_last()) + if spec_is_mark(s.last()) {
            0int
        } else {
            1int
        }
    }
}

/// Index just before the `(n + 1)`-th visible character of `s`: combining
/// marks that follow the `n`-th visible character stay within the prefix.
pub open spec fn spec_cut_len(s: Seq<char>, n: int) -> int
    decreases s.len(),
{
    if s.len() == 0 {
        0
    } else if spec_is_mark(s[0]) {
        1 + spec_cut_len(s.drop_first(), n)
    } else if n <= 0 {
        0
    } else {
        1 + spec_cut_len(s.drop_first(), n - 1)
    }
}

/// The truncated form of `s` under visible-length limit `n`: `s` itself when
/// it fits, else the prefix of `n` visible characters with an ellipsis.
pub open spec fn spec_substr_th(s: Seq<char>, n: int) -> Seq<char> {
    if spec_visible_count(s) <= n {
        s
    } else {
        s.take(spec_cut_len(s, n)).push('\u{2026}')
    }
}

pub proof fn lemma_visible_count_nonneg(s: Seq<char>)
    ensures
        spec_visible_count(s) >= 0,
    decreases s.len(),
{
    if s.len() > 0 {
        lemma_visible_count_nonneg(s.drop_last());
    }
}

proof fn lemma_visible_take_step(s: Seq<char>, i: int)
    requires
        0 <= i < s.len(),
    ensures
        spec_visible_count(s.take(i + 1)) == spec_visible_count(s.take(i)) + if spec_is_mark(
            s[i],
        ) {
            0int
        } else {
            1int
        },
{
    assert(s.take(i + 1).drop_last() =~= s.take(i));
    assert(s.take(i + 1).last() == s[i]);
}

proof fn lemma_cut_len_skip(s: Seq<char>, n: int, k: int, rem: int)
    requires
        0 <= k < s.len(),
        rem >= 0,
    ensures
        spec_is_mark(s[k]) ==> k + spec_cut_len(s.skip(k), rem) == (k + 1) + spec_cut_len(
            s.skip(k + 1),
            rem,
        ),
        !spec_is_mark(s[k]) && rem > 0 ==> k + spec_cut_len(s.skip(k), rem) == (k + 1)
            + spec_cut_len(s.skip(k + 1), rem - 1),
        !spec_is_mark(s[k]) && rem <= 0 ==> k + spec_cut_len(s.skip(k), rem) == k,
{
    assert(s.skip(k).len() == s.len() - k);
    assert(s.skip(k)[0] == s[k]);
    assert(s.skip(k).drop_first() =~= s.skip(k + 1));
}

/// The cut always lands on the boundary before a visible character (or the
/// string's end), so a combining mark is never separated from its base: the
/// kept prefix holds exactly `n` visible characters together with every mark
/// attached to them.
pub proof fn lemma_cut_len_props(s: Seq<char>, n: int)
    requires
        n >= 0,
    ensures
        0 <= spec_cut_len(s, n) <= s.len(),
        spec_visible_count(s) > n ==> spec_cut_len(s, n) < s.len() && !spec_is_mark(
            s[spec_cut_len(s, n)],
        ) && spec_visible_count(s.take(spec_cut_len(s, n))) == n,
    decreases s.len(),
{
    lemma_visible_count_nonneg(s);
    if s.len() == 0 {
    } else if spec_is_mark(s[0]) || n > 0 {
        let n2 = if spec_is_mark(s[0]) {
            n
        } else {
            n - 1
        };
        let rest = s.drop_first();
        lemma_cut_len_props(rest, n2);
        assert(spec_visible_count(s) == spec_visible_count(rest) + if spec_is_mark(s[0]) {
            0int
        } else {
            1int
        }) by {
            lemma_visible_prepend(s);
        }
        let c = spec_cut_len(rest, n2);
        assert(spec_cut_len(s, n) == 1 + c);
        if spec_visible_count(s) > n {
            assert(s[1 + c] == rest[c]);
            assert(s.take(1 + c).drop_first() =~= rest.take(c));
            lemma_visible_prepend(s.take(1 + c));
        }
    } else {
        // n == 0 and the first character is visible: the cut is at 0.
        assert(spec_visible_count(s.take(0)) == 0);
    }
}

/// Relates the count of a sequence to the count of its tail.
proof fn lemma_visible_prepend(s: Seq<char>)
    requires
        s.len() > 0,
    ensures
        spec_visible_count(s) == spec_visible_count(s.drop_first()) + if spec_is_mark(s[0]) {
            0int
        } else {
            1int
        },
    decreases s.len(),
{
    if s.len() == 1 {
        assert(s.drop_last() =~= s.drop_first());
    } else {
        let t = s.drop_last();
        lemma_visible_prepend(t);
        assert(t.drop_first() =~= s.drop_first().drop_last());
        assert(s.drop_first().last() == s.last());
        assert(t[0] == s[0]);
    }
}

/// Truncation leaves a fitting string unchanged; otherwise the output is a
/// prefix holding exactly `n` visible characters (every combining mark still
/// attached to its base) with one ellipsis appended.
pub proof fn lemma_substr_th_props(s: Seq<char>, n: int)
    requires
        n >= 0,
    ensures
        spec_visible_count(s) <= n ==> spec_substr_th(s, n) == s,
        spec_visible_count(s) > n ==> {
            let cut = spec_cut_len(s, n);
            &&& spec_substr_th(s, n) == s.take(cut).push('\u{2026}')
            &&& spec_visible_count(s.take(cut)) == n
            &&& 0 <= cut < s.len()
            &&& !spec_is_mark(s[cut])
        },
{
    lemma_cut_len_props(s, n);
}

/// Truncates `s` to at most `len` visible characters, appending an ellipsis
/// when anything was cut; combining marks stay with their base character.
pub fn substr_th(s: String, len: usize) -> (r: String)
    ensures
        r@ == spec_substr_th(s@, len as int),
        spec_visible_count(s@) <= len ==> r@ == s@,
{
    let n_total = s.as_str().unicode_len();
    // First pass: the visible-character count.
    let mut cnt: usize = 0;
    let mut i: usize = 0;
    while i < n_total
        invariant
            i <= n_total,
            n_total == s@.len(),
            cnt == spec_visible_count(s@.take(i as int)),
            cnt <= i,
        decreases n_total - i,
    {
        proof {
            lemma_visible_take_step(s@, i as int);
        }
        if !is_mark(s.as_str().get_char(i)) {
            cnt = cnt + 1;
        }
        i = i + 1;
    }
    proof {
        assert(s@.take(n_total as int) =~= s@);
    }
    if cnt <= len {
        return s;
    }
    // Second pass: find the cut index.
    let mut k: usize = 0;
    let mut rem: usize = len;
    proof {
        assert(s@.skip(0) =~= s@);
    }
    loop
        invariant_except_break
            k <= n_total,
            n_total == s@.len(),
            spec_cut_len(s@, len as int) == k + spec_cut_len(s@.skip(k as int), rem as int),
            rem <= len,
        ensures
            k <= n_total,
            n_total == s@.len(),
            spec_cut_len(s@, len as int) == k as int,
        decreases n_total - k,
    {
        if k >= n_total {
            proof {
                assert(s@.skip(n_total as int) =~= Seq::<char>::empty());
            }
            break ;
        }
        let c = s.as_str().get_char(k);
        proof {
            lemma_cut_len_skip(s@, len as int, k as int, rem as int);
        }
        if is_mark(c) {
            k = k + 1;
        } else if rem == 0 {
            break ;
        } else {
            rem = rem - 1;
            k = k + 1;
        }
    }
    let mut r = s.as_str().substring_char(0, k).to_owned();
    r.append("\u{2026}");
    proof {
        reveal_strlit("\u{2026}");
        assert(s@.subrange(0, k as int) =~= s@.take(k as int));
        assert(r@ =~= s@.take(k as int).push('\u{2026}'));
    }
    r
}

} // verus!
