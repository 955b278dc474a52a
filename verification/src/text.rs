//! Text helpers over the character view of strings.

use vstd::prelude::*;

verus! {

/// Appends one character to a `String` (`String::push`).
///
/// Trusted: the contract claims that the character is added at the end and
/// nothing else changes, as the standard library documents.
#[verifier::external_body]
pub(crate) fn push_char(s: &mut String, c: char)
    ensures
        final(s)@ == old(s)@.push(c),
{
    s.push(c);
}

/// The characters of `s`, in order.
pub fn chars_of(s: &str) -> (v: Vec<char>)
    ensures
        v@ == s@,
{
    let n = s.unicode_len();
    let mut v: Vec<char> = Vec::new();
    let mut i: usize = 0;
    while i < n
        invariant
            n == s@.len(),
            i <= n,
            v@ == s@.subrange(0, i as int),
        decreases n - i,
    {
        let c = s.get_char(i);
        v.push(c);
        i = i + 1;
    }
    v
}

/// A `String` holding the characters of `cs`.
pub fn string_from_chars(cs: &Vec<char>) -> (s: String)
    ensures
        s@ == cs@,
{
    let mut s = String::new();
    let mut i: usize = 0;
    while i < cs.len()
        invariant
            i <= cs.len(),
            s@ == cs@.subrange(0, i as int),
        decreases cs.len() - i,
    {
        push_char(&mut s, cs[i]);
        i = i + 1;
    }
    s
}

/// Whether two strings hold the same text.
pub fn same_text(a: &str, b: &str) -> (r: bool)
    ensures
        r == (a@ == b@),
{
    let x: String = a.to_owned();
    let y: String = b.to_owned();
    x == y
}

} // verus!

verus! {

/// Lexicographic order on texts by code point: the order of `String`'s `Ord`.
pub open spec fn text_lt(a: Seq<char>, b: Seq<char>) -> bool
    decreases a.len(),
{
    if a.len() == 0 {
        b.len() > 0
    } else if b.len() == 0 {
        false
    } else if a[0] != b[0] {
        (a[0] as u32) < (b[0] as u32)
    } else {
        text_lt(a.drop_first(), b.drop_first())
    }
}

/// No text comes before itself.
pub proof fn lemma_text_lt_irreflexive(a: Seq<char>)
    ensures
        !text_lt(a, a),
    decreases a.len(),
{
    if a.len() > 0 {
        lemma_text_lt_irreflexive(a.drop_first());
    }
}

/// The order is transitive.
pub proof fn lemma_text_lt_transitive(a: Seq<char>, b: Seq<char>, c: Seq<char>)
    requires
        text_lt(a, b),
        text_lt(b, c),
    ensures
        text_lt(a, c),
    decreases a.len(),
{
    if a.len() > 0 && b.len() > 0 && c.len() > 0 {
        if a[0] == b[0] && b[0] == c[0] {
            lemma_text_lt_transitive(a.drop_first(), b.drop_first(), c.drop_first());
        } else {
            vstd::utf8::char_u32_cast(a[0], a[0] as u32);
            vstd::utf8::char_u32_cast(b[0], b[0] as u32);
            vstd::utf8::char_u32_cast(c[0], c[0] as u32);
        }
    }
}

/// Of two different texts, one comes before the other.
pub proof fn lemma_text_lt_total(a: Seq<char>, b: Seq<char>)
    requires
        a != b,
    ensures
        text_lt(a, b) || text_lt(b, a),
    decreases a.len(),
{
    if a.len() == 0 && b.len() == 0 {
        assert(a =~= b);
    } else if a.len() > 0 && b.len() > 0 {
        if a[0] == b[0] {
            if a.drop_first() == b.drop_first() {
                assert(a =~= seq![a[0]] + a.drop_first());
                assert(b =~= seq![b[0]] + b.drop_first());
            }
            lemma_text_lt_total(a.drop_first(), b.drop_first());
        } else {
            vstd::utf8::char_u32_cast(a[0], a[0] as u32);
            vstd::utf8::char_u32_cast(b[0], b[0] as u32);
        }
    }
}

/// Texts that agree on their first `i` characters compare as their rests do.
proof fn lemma_text_lt_skip(a: Seq<char>, b: Seq<char>, i: int)
    requires
        0 <= i <= a.len(),
        i <= b.len(),
        a.subrange(0, i) == b.subrange(0, i),
    ensures
        text_lt(a, b) == text_lt(a.skip(i), b.skip(i)),
    decreases i,
{
    if i > 0 {
        assert(a[0] == a.subrange(0, i)[0]);
        assert(b[0] == b.subrange(0, i)[0]);
        assert(a.drop_first().subrange(0, i - 1) =~= a.subrange(0, i).drop_first());
        assert(b.drop_first().subrange(0, i - 1) =~= b.subrange(0, i).drop_first());
        lemma_text_lt_skip(a.drop_first(), b.drop_first(), i - 1);
        assert(a.drop_first().skip(i - 1) =~= a.skip(i));
        assert(b.drop_first().skip(i - 1) =~= b.skip(i));
    } else {
        assert(a.skip(0) =~= a);
        assert(b.skip(0) =~= b);
    }
}

/// Whether `a` comes before `b` in the order of `String`'s `Ord`.
pub fn chars_less(a: &Vec<char>, b: &Vec<char>) -> (r: bool)
    ensures
        r == text_lt(a@, b@),
{
    let mut i: usize = 0;
    while i < a.len() && i < b.len() && a[i] == b[i]
        invariant
            i <= a.len(),
            i <= b.len(),
            a@.subrange(0, i as int) == b@.subrange(0, i as int),
        decreases a.len() - i,
    {
        assert(a@.subrange(0, i + 1) =~= a@.subrange(0, i as int).push(a@[i as int]));
        assert(b@.subrange(0, i + 1) =~= b@.subrange(0, i as int).push(b@[i as int]));
        i = i + 1;
    }
    proof {
        lemma_text_lt_skip(a@, b@, i as int);
    }
    if i == a.len() {
        i < b.len()
    } else if i == b.len() {
        false
    } else {
        assert(a@.skip(i as int)[0] == a@[i as int]);
        assert(b@.skip(i as int)[0] == b@[i as int]);
        (a[i] as u32) < (b[i] as u32)
    }
}

/// Whether `a` comes before `b` in the order of `String`'s `Ord`.
pub fn text_less(a: &str, b: &str) -> (r: bool)
    ensures
        r == text_lt(a@, b@),
{
    let x = chars_of(a);
    let y = chars_of(b);
    chars_less(&x, &y)
}

} // verus!

verus! {

/// Whether `c` is an ASCII decimal digit.
pub open spec fn is_decimal_digit(c: char) -> bool {
    '0' <= c <= '9'
}

/// Value of the decimal numeral `s` (digits only).
pub open spec fn decimal_value(s: Seq<char>) -> nat
    decreases s.len(),
{
    if s.len() == 0 {
        0
    } else {
        decimal_value(s.drop_last()) * 10 + ((s.last() as u32) - 48) as nat
    }
}

/// The digits part of an unsigned numeral: `s` without a leading `+`.
pub open spec fn unsigned_digits(s: Seq<char>) -> Seq<char> {
    if s.len() > 0 && s[0] == '+' {
        s.drop_first()
    } else {
        s
    }
}

/// Every character of `s` is a decimal digit.
pub open spec fn all_decimal(s: Seq<char>) -> bool {
    forall|i: int| 0 <= i < s.len() ==> is_decimal_digit(#[trigger] s[i])
}

/// What `str::parse::<u64>` gives for `s`: an optional `+` followed by at least
/// one decimal digit, with a value that fits.
pub open spec fn parse_u64_spec(s: Seq<char>) -> Option<u64> {
    let digits = unsigned_digits(s);
    if digits.len() == 0 || !all_decimal(digits) || decimal_value(digits) > u64::MAX {
        None
    } else {
        Some(decimal_value(digits) as u64)
    }
}

proof fn lemma_decimal_value_grows(s: Seq<char>, i: int)
    requires
        0 <= i <= s.len(),
        forall|k: int| 0 <= k < s.len() ==> is_decimal_digit(#[trigger] s[k]),
    ensures
        decimal_value(s.subrange(0, i)) <= decimal_value(s),
    decreases s.len() - i,
{
    if i < s.len() {
        lemma_decimal_value_grows(s, i + 1);
        assert(s.subrange(0, i + 1).drop_last() =~= s.subrange(0, i));
    } else {
        assert(s.subrange(0, i) =~= s);
    }
}

/// Parses a decimal `u64` as `str::parse::<u64>` does.
pub fn parse_u64(s: &str) -> (r: Option<u64>)
    ensures
        r == parse_u64_spec(s@),
{
    let cs = chars_of(s);
    let mut start: usize = 0;
    if cs.len() > 0 && cs[0] == '+' {
        start = 1;
    }
    let ghost digits = unsigned_digits(s@);
    assert(digits =~= cs@.subrange(start as int, cs@.len() as int));
    if start == cs.len() {
        return None;
    }
    let mut acc: u64 = 0;
    let mut i: usize = start;
    while i < cs.len()
        invariant
            start <= i <= cs@.len(),
            cs@ == s@,
            digits == unsigned_digits(s@),
            digits == cs@.subrange(start as int, cs@.len() as int),
            forall|k: int| 0 <= k < i - start ==> is_decimal_digit(#[trigger] digits[k]),
            acc as nat == decimal_value(digits.subrange(0, i - start)),
        decreases cs.len() - i,
    {
        let c = cs[i];
        if !('0' <= c && c <= '9') {
            assert(!is_decimal_digit(digits[i - start]));
            return None;
        }
        let d: u64 = (c as u32 - 48) as u64;
        assert(digits.subrange(0, i + 1 - start).drop_last() =~= digits.subrange(0, i - start));
        assert(digits.subrange(0, i + 1 - start).last() == c);
        match acc.checked_mul(10) {
            None => {
                proof {
                    assert(decimal_value(digits.subrange(0, i + 1 - start)) > u64::MAX);
                    if all_decimal(digits) {
                        lemma_decimal_value_grows(digits, i + 1 - start);
                    }
                }
                return None;
            },
            Some(m) => match m.checked_add(d) {
                None => {
                    proof {
                        assert(decimal_value(digits.subrange(0, i + 1 - start)) > u64::MAX);
                        if all_decimal(digits) {
                            lemma_decimal_value_grows(digits, i + 1 - start);
                        }
                    }
                    return None;
                },
                Some(v) => {
                    acc = v;
                },
            },
        }
        i = i + 1;
    }
    assert(digits.subrange(0, digits.len() as int) =~= digits);
    Some(acc)
}

} // verus!

verus! {

/// `s` with `r` before each of its characters and once more at the end
/// (what `str::replace` does for an empty pattern).
pub open spec fn interleaved(s: Seq<char>, r: Seq<char>) -> Seq<char>
    decreases s.len(),
{
    if s.len() == 0 {
        r
    } else {
        r + seq![s[0]] + interleaved(s.drop_first(), r)
    }
}

/// `s` with each occurrence of `p` replaced by `r`, scanning from the left
/// and never overlapping; an empty `p` occurs before each character and at
/// the end (what `str::replace` does).
pub open spec fn replaced(s: Seq<char>, p: Seq<char>, r: Seq<char>) -> Seq<char>
    decreases s.len(),
{
    if p.len() == 0 {
        interleaved(s, r)
    } else if s.len() < p.len() {
        s
    } else if s.subrange(0, p.len() as int) == p {
        r + replaced(s.skip(p.len() as int), p, r)
    } else {
        seq![s[0]] + replaced(s.drop_first(), p, r)
    }
}

/// `p` occurs nowhere in `s`.
pub open spec fn occurs_nowhere(s: Seq<char>, p: Seq<char>) -> bool {
    forall|i: int| 0 <= i && i + p.len() <= s.len() ==> #[trigger] s.subrange(i, i + p.len()) != p
}

/// A text in which the pattern occurs nowhere comes out of a replacement
/// unchanged: a command template without a placeholder stays as written.
pub proof fn lemma_replaced_absent(s: Seq<char>, p: Seq<char>, r: Seq<char>)
    requires
        occurs_nowhere(s, p),
    ensures
        replaced(s, p, r) == s,
    decreases s.len(),
{
    let z: int = 0;
    if p.len() == 0 {
        assert(s.subrange(z, z + p.len()) =~= p);
    } else if s.len() < p.len() {
    } else {
        assert(s.subrange(z, z + p.len()) != p);
        let t = s.drop_first();
        assert forall|i: int| 0 <= i && i + p.len() <= t.len() implies #[trigger] t.subrange(i, i + p.len()) != p by {
            assert(t.subrange(i, i + p.len()) =~= s.subrange(i + 1, i + 1 + p.len()));
        }
        lemma_replaced_absent(t, p, r);
        assert(seq![s[0]] + t =~= s);
    }
}

/// Whether `p` occurs in `cs` at position `i`.
fn occurs_at(cs: &Vec<char>, i: usize, p: &Vec<char>) -> (b: bool)
    requires
        i <= cs@.len(),
    ensures
        b == (i + p@.len() <= cs@.len() && cs@.subrange(i as int, i + p@.len()) == p@),
{
    if p.len() > cs.len() - i {
        return false;
    }
    let n = cs.len();
    let mut j: usize = 0;
    while j < p.len()
        invariant
            j <= p@.len(),
            n == cs@.len(),
            i + p@.len() <= n,
            forall|k: int| 0 <= k < j ==> cs@[i + k] == p@[k],
        decreases p.len() - j,
    {
        if cs[i + j] != p[j] {
            assert(cs@.subrange(i as int, i + p@.len())[j as int] != p@[j as int]);
            return false;
        }
        j = j + 1;
    }
    assert(cs@.subrange(i as int, i + p@.len()) =~= p@);
    true
}

/// `with` before each character of `cs` and once more at the end.
fn interleave(cs: &Vec<char>, ws: &Vec<char>) -> (out: Vec<char>)
    ensures
        out@ == interleaved(cs@, ws@),
{
    let mut out: Vec<char> = Vec::new();
    let mut i: usize = 0;
    assert(cs@.skip(0) =~= cs@);
    while i < cs.len()
        invariant
            i <= cs@.len(),
            out@ + interleaved(cs@.skip(i as int), ws@) == interleaved(cs@, ws@),
        decreases cs.len() - i,
    {
        let ghost out0 = out@;
        let ghost t = cs@.skip(i as int);
        let mut j: usize = 0;
        while j < ws.len()
            invariant
                j <= ws@.len(),
                out@ == out0 + ws@.subrange(0, j as int),
            decreases ws.len() - j,
        {
            out.push(ws[j]);
            assert(out@ =~= out0 + ws@.subrange(0, j + 1));
            j = j + 1;
        }
        out.push(cs[i]);
        proof {
            assert(ws@.subrange(0, ws@.len() as int) =~= ws@);
            assert(t.drop_first() =~= cs@.skip(i + 1));
            assert(t[0] == cs@[i as int]);
            assert(out0 + (ws@ + seq![t[0]] + interleaved(t.drop_first(), ws@)) =~= out@ + interleaved(
                cs@.skip(i + 1),
                ws@,
            ));
        }
        i = i + 1;
    }
    let ghost out0 = out@;
    let mut j: usize = 0;
    while j < ws.len()
        invariant
            j <= ws@.len(),
            out@ == out0 + ws@.subrange(0, j as int),
        decreases ws.len() - j,
    {
        out.push(ws[j]);
        assert(out@ =~= out0 + ws@.subrange(0, j + 1));
        j = j + 1;
    }
    assert(cs@.skip(cs@.len() as int) =~= Seq::<char>::empty());
    assert(ws@.subrange(0, ws@.len() as int) =~= ws@);
    out
}

/// `s` with each occurrence of `pattern` replaced by `with`, from the left
/// (`str::replace`); an empty pattern puts `with` before each character and
/// at the end.
pub fn replace_all(s: &str, pattern: &str, with: &str) -> (r: String)
    ensures
        r@ == replaced(s@, pattern@, with@),
{
    let cs = chars_of(s);
    let ps = chars_of(pattern);
    let ws = chars_of(with);
    if ps.len() == 0 {
        let out = interleave(&cs, &ws);
        return string_from_chars(&out);
    }
    let mut out: Vec<char> = Vec::new();
    let mut i: usize = 0;
    assert(cs@.skip(0) =~= cs@);
    while i < cs.len()
        invariant
            i <= cs@.len(),
            ps@.len() > 0,
            out@ + replaced(cs@.skip(i as int), ps@, ws@) == replaced(cs@, ps@, ws@),
        decreases cs.len() - i,
    {
        let ghost t = cs@.skip(i as int);
        if occurs_at(&cs, i, &ps) {
            proof {
                assert(t.subrange(0, ps@.len() as int) =~= cs@.subrange(i as int, i + ps@.len()));
                assert(t.skip(ps@.len() as int) =~= cs@.skip(i + ps@.len()));
            }
            let mut j: usize = 0;
            let ghost out0 = out@;
            while j < ws.len()
                invariant
                    j <= ws@.len(),
                    out@ == out0 + ws@.subrange(0, j as int),
                decreases ws.len() - j,
            {
                out.push(ws[j]);
                assert(out@ =~= out0 + ws@.subrange(0, j + 1));
                j = j + 1;
            }
            proof {
                assert(ws@.subrange(0, ws@.len() as int) =~= ws@);
                assert(out0 + (ws@ + replaced(cs@.skip(i + ps@.len()), ps@, ws@)) =~= out@ + replaced(cs@.skip(i + ps@.len()), ps@, ws@));
            }
            i = i + ps.len();
        } else {
            proof {
                if t.len() >= ps@.len() {
                    assert(t.subrange(0, ps@.len() as int) =~= cs@.subrange(i as int, i + ps@.len()));
                    assert(t.drop_first() =~= cs@.skip(i + 1));
                    assert(t[0] == cs@[i as int]);
                    assert(out@ + (seq![cs@[i as int]] + replaced(cs@.skip(i + 1), ps@, ws@)) =~= out@.push(cs@[i as int]) + replaced(cs@.skip(i + 1), ps@, ws@));
                } else {
                    assert(cs@.skip(i + 1).len() < ps@.len());
                    assert(t =~= seq![cs@[i as int]] + cs@.skip(i + 1));
                    assert(out@ + t =~= out@.push(cs@[i as int]) + cs@.skip(i + 1));
                }
            }
            out.push(cs[i]);
            i = i + 1;
        }
    }
    assert(cs@.skip(cs@.len() as int) =~= Seq::<char>::empty());
    assert(out@ + Seq::<char>::empty() =~= out@);
    string_from_chars(&out)
}

/// The `'\n'`-terminated lines of `s` after the current partial line `cur`.
pub open spec fn lines_from(s: Seq<char>, cur: Seq<char>) -> Seq<Seq<char>>
    decreases s.len(),
{
    if s.len() == 0 {
        Seq::empty()
    } else if s[0] == '\n' {
        seq![cur] + lines_from(s.drop_first(), Seq::empty())
    } else {
        lines_from(s.drop_first(), cur.push(s[0]))
    }
}

/// The lines of command output: the pieces between newlines, without the
/// piece after the last newline.
pub open spec fn output_lines_spec(s: Seq<char>) -> Seq<Seq<char>> {
    lines_from(s, Seq::empty())
}

/// Splits command output into its newline-terminated lines; what follows the
/// last newline is not a line.
pub fn output_lines(out: &str) -> (lines: Vec<String>)
    ensures
        lines@.map_values(|l: String| l@) == output_lines_spec(out@),
{
    let cs = chars_of(out);
    let mut lines: Vec<String> = Vec::new();
    let mut cur: Vec<char> = Vec::new();
    let mut i: usize = 0;
    assert(cs@.skip(0) =~= cs@);
    while i < cs.len()
        invariant
            i <= cs@.len(),
            cs@ == out@,
            lines@.map_values(|l: String| l@) + lines_from(cs@.skip(i as int), cur@) == output_lines_spec(out@),
        decreases cs.len() - i,
    {
        let ghost t = cs@.skip(i as int);
        assert(t[0] == cs@[i as int]);
        assert(t.drop_first() =~= cs@.skip(i + 1));
        if cs[i] == '\n' {
            let line = string_from_chars(&cur);
            let ghost before = lines@.map_values(|l: String| l@);
            lines.push(line);
            assert(lines@.map_values(|l: String| l@) =~= before.push(cur@));
            assert(before + (seq![cur@] + lines_from(cs@.skip(i + 1), Seq::empty())) =~= before.push(cur@) + lines_from(cs@.skip(i + 1), Seq::empty()));
            cur = Vec::new();
            assert(cur@ =~= Seq::<char>::empty());
        } else {
            cur.push(cs[i]);
        }
        i = i + 1;
    }
    assert(lines@.map_values(|l: String| l@) + Seq::<Seq<char>>::empty() =~= lines@.map_values(|l: String| l@));
    lines
}

/// The pieces of `items` with `sep` between each two.
pub open spec fn joined(items: Seq<Seq<char>>, sep: Seq<char>) -> Seq<char>
    decreases items.len(),
{
    if items.len() == 0 {
        Seq::empty()
    } else if items.len() == 1 {
        items[0]
    } else {
        joined(items.drop_last(), sep) + sep + items.last()
    }
}

/// Joins `items` with `sep` between each two.
pub fn join(items: &Vec<String>, sep: &str) -> (r: String)
    ensures
        r@ == joined(items@.map_values(|t: String| t@), sep@),
{
    let ghost view = items@.map_values(|t: String| t@);
    let sc = chars_of(sep);
    let mut out: Vec<char> = Vec::new();
    let mut i: usize = 0;
    while i < items.len()
        invariant
            i <= items@.len(),
            view == items@.map_values(|t: String| t@),
            sc@ == sep@,
            out@ == joined(view.subrange(0, i as int), sep@),
        decreases items.len() - i,
    {
        let piece = chars_of(items[i].as_str());
        let ghost out0 = out@;
        if i > 0 {
            let mut j: usize = 0;
            while j < sc.len()
                invariant
                    j <= sc@.len(),
                    out@ == out0 + sc@.subrange(0, j as int),
                decreases sc.len() - j,
            {
                out.push(sc[j]);
                assert(out@ =~= out0 + sc@.subrange(0, j + 1));
                j = j + 1;
            }
            assert(sc@.subrange(0, sc@.len() as int) =~= sc@);
        }
        let ghost out1 = out@;
        let mut j: usize = 0;
        while j < piece.len()
            invariant
                j <= piece@.len(),
                out@ == out1 + piece@.subrange(0, j as int),
            decreases piece.len() - j,
        {
            out.push(piece[j]);
            assert(out@ =~= out1 + piece@.subrange(0, j + 1));
            j = j + 1;
        }
        proof {
            assert(piece@.subrange(0, piece@.len() as int) =~= piece@);
            let pre = view.subrange(0, i + 1);
            assert(pre.drop_last() =~= view.subrange(0, i as int));
            assert(pre.last() == items@[i as int]@);
            if i == 0 {
                assert(out@ =~= piece@);
            }
        }
        i = i + 1;
    }
    assert(view.subrange(0, items@.len() as int) =~= view);
    string_from_chars(&out)
}

/// The character of decimal digit `d`.
pub open spec fn digit_char(d: nat) -> char {
    if d == 0 {
        '0'
    } else if d == 1 {
        '1'
    } else if d == 2 {
        '2'
    } else if d == 3 {
        '3'
    } else if d == 4 {
        '4'
    } else if d == 5 {
        '5'
    } else if d == 6 {
        '6'
    } else if d == 7 {
        '7'
    } else if d == 8 {
        '8'
    } else {
        '9'
    }
}

/// Decimal digits of `n`.
pub open spec fn decimal_text(n: nat) -> Seq<char>
    decreases n,
{
    if n < 10 {
        seq![digit_char(n)]
    } else {
        decimal_text(n / 10).push(digit_char(n % 10))
    }
}

fn push_decimal(n: usize, out: &mut Vec<char>)
    ensures
        final(out)@ == old(out)@ + decimal_text(n as nat),
    decreases n,
{
    if n >= 10 {
        push_decimal(n / 10, out);
    }
    let d = n % 10;
    let c = if d == 0 {
        '0'
    } else if d == 1 {
        '1'
    } else if d == 2 {
        '2'
    } else if d == 3 {
        '3'
    } else if d == 4 {
        '4'
    } else if d == 5 {
        '5'
    } else if d == 6 {
        '6'
    } else if d == 7 {
        '7'
    } else if d == 8 {
        '8'
    } else {
        '9'
    };
    out.push(c);
    assert(final(out)@ =~= old(out)@ + decimal_text(n as nat)) by {
        if n >= 10 {
            assert(decimal_text(n as nat) == decimal_text((n / 10) as nat).push(c));
        }
    }
}

proof fn lemma_digit_char(d: nat)
    requires
        d < 10,
    ensures
        is_decimal_digit(digit_char(d)),
        (digit_char(d) as u32) - 48 == d,
{
}

proof fn lemma_decimal_text(n: nat)
    ensures
        decimal_text(n).len() > 0,
        all_decimal(decimal_text(n)),
        decimal_value(decimal_text(n)) == n,
    decreases n,
{
    let t = decimal_text(n);
    if n < 10 {
        lemma_digit_char(n);
        assert(t.drop_last() =~= Seq::<char>::empty());
        assert(decimal_value(Seq::<char>::empty()) == 0);
        assert(decimal_value(t) == decimal_value(t.drop_last()) * 10 + ((t.last() as u32) - 48) as nat);
    } else {
        lemma_decimal_text(n / 10);
        lemma_digit_char(n % 10);
        let head = decimal_text(n / 10);
        assert(t.drop_last() =~= head);
        assert(t.last() == digit_char(n % 10));
        assert forall|i: int| 0 <= i < t.len() implies is_decimal_digit(#[trigger] t[i]) by {
            if i < head.len() {
                assert(t[i] == head[i]);
            }
        }
        assert(decimal_value(t) == decimal_value(head) * 10 + ((t.last() as u32) - 48) as nat);
        assert((n / 10) * 10 + n % 10 == n) by (nonlinear_arith);
    }
}

/// Reading back the decimal text of a number gives the number.
pub proof fn lemma_parse_decimal_round_trip(n: u64)
    ensures
        parse_u64_spec(decimal_text(n as nat)) == Some(n),
{
    lemma_decimal_text(n as nat);
    let t = decimal_text(n as nat);
    assert(is_decimal_digit(t[0]));
    assert(unsigned_digits(t) == t);
}

/// `n` in decimal.
pub fn decimal(n: usize) -> (s: String)
    ensures
        s@ == decimal_text(n as nat),
{
    let mut v: Vec<char> = Vec::new();
    push_decimal(n, &mut v);
    assert(v@ =~= decimal_text(n as nat));
    string_from_chars(&v)
}

} // verus!

verus! {

/// `a` followed by `b`.
pub fn concat_text(a: &str, b: &str) -> (r: String)
    ensures
        r@ == a@ + b@,
{
    a.to_owned().concat(b)
}

} // verus!
