//! Small text utilities on `String` and `&str`, specified over `Seq<char>`.

use vstd::prelude::*;

verus! {

/// Appends one character to a string (std `String::push`).
#[verifier::external_body]
pub(crate) fn push_char(s: &mut String, c: char)
    ensures
        final(s)@ == old(s)@.push(c),
{
    s.push(c);
}

/// The characters of a string slice, in order.
pub fn chars_of(s: &str) -> (r: Vec<char>)
    ensures
        r@ == s@,
{
    let n = s.unicode_len();
    let mut v: Vec<char> = Vec::new();
    let mut i: usize = 0;
    while i < n
        invariant
            n == s@.len(),
            i <= n,
            v@ == s@.subrange(0, i as int),
        decreases n - i,
    {
        v.push(s.get_char(i));
        i = i + 1;
    }
    v
}

/// Builds a string from a sequence of characters.
pub fn string_from_chars(cs: &Vec<char>) -> (r: String)
    ensures
        r@ == cs@,
{
    let mut s = String::new();
    let mut i: usize = 0;
    while i < cs.len()
        invariant
            i <= cs.len(),
            s@ == cs@.subrange(0, i as int),
        decreases cs.len() - i,
    {
        push_char(&mut s, cs[i]);
        i = i + 1;
    }
    s
}


/// `s` with every underscore removed.
pub open spec fn strip_underscores(s: Seq<char>) -> Seq<char>
    decreases s.len(),
{
    if s.len() == 0 {
        Seq::empty()
    } else if s.last() == '_' {
        strip_underscores(s.drop_last())
    } else {
        strip_underscores(s.drop_last()).push(s.last())
    }
}

/// What std's `str::to_lowercase` returns for a string (Unicode lowercase mapping).
pub uninterp spec fn spec_lowercase(s: Seq<char>) -> Seq<char>;

/// The ASCII lowercase of a character: `A`..`Z` become `a`..`z`, every other
/// character stays.
pub open spec fn ascii_lower_char(c: char) -> char {
    if 'A' <= c && c <= 'Z' {
        ((c as int) + 32) as char
    } else {
        c
    }
}

/// std `str::to_lowercase`; on ASCII text it is the ASCII lowercase, one
/// character for one.
#[verifier::external_body]
pub(crate) fn lowercase(s: &str) -> (r: String)
    ensures
        r@ == spec_lowercase(s@),
        vstd::utf8::is_ascii_chars(s@) ==> r@ == s@.map_values(|c: char| ascii_lower_char(c)),
{
    s.to_lowercase()
}

/// The key under which a wire name is matched: lowercased, underscores removed.
pub open spec fn match_key(s: Seq<char>) -> Seq<char> {
    strip_underscores(spec_lowercase(s))
}

/// Removes every underscore (the effect of `replace('_', "")`).
pub fn remove_underscores(cs: &Vec<char>) -> (r: Vec<char>)
    ensures
        r@ == strip_underscores(cs@),
{
    let mut out: Vec<char> = Vec::new();
    let mut i: usize = 0;
    while i < cs.len()
        invariant
            i <= cs.len(),
            out@ == strip_underscores(cs@.subrange(0, i as int)),
        decreases cs.len() - i,
    {
        assert(cs@.subrange(0, i + 1).drop_last() == cs@.subrange(0, i as int));
        if cs[i] != '_' {
            out.push(cs[i]);
        }
        i = i + 1;
    }
    assert(cs@.subrange(0, cs.len() as int) == cs@);
    out
}

/// The matching key of a name: lowercase it, then drop the underscores.
pub fn match_key_of(s: &str) -> (r: Vec<char>)
    ensures
        r@ == match_key(s@),
{
    let lower = lowercase(s);
    let cs = chars_of(lower.as_str());
    remove_underscores(&cs)
}

/// Character-wise equality of two character vectors.
pub fn chars_equal(a: &Vec<char>, b: &Vec<char>) -> (r: bool)
    ensures
        r == (a@ == b@),
{
    if a.len() != b.len() {
        return false;
    }
    let mut i: usize = 0;
    while i < a.len()
        invariant
            a.len() == b.len(),
            i <= a.len(),
            forall|j: int| 0 <= j < i ==> a@[j] == b@[j],
        decreases a.len() - i,
    {
        if a[i] != b[i] {
            return false;
        }
        i = i + 1;
    }
    assert(a@ =~= b@);
    true
}

/// Character-wise equality of two string slices.
pub fn str_equal(a: &str, b: &str) -> (r: bool)
    ensures
        r == (a@ == b@),
{
    let ca = chars_of(a);
    let cb = chars_of(b);
    chars_equal(&ca, &cb)
}


/// The decimal digit for `d < 10`.
pub open spec fn digit_char(d: nat) -> char {
    if d == 0 { '0' } else if d == 1 { '1' } else if d == 2 { '2' } else if d == 3 { '3' }
    else if d == 4 { '4' } else if d == 5 { '5' } else if d == 6 { '6' } else if d == 7 { '7' }
    else if d == 8 { '8' } else { '9' }
}

/// The decimal digits of a natural number, most significant first.
pub open spec fn decimal_nat(n: nat) -> Seq<char>
    decreases n,
{
    if n < 10 {
        seq![digit_char(n)]
    } else {
        decimal_nat(n / 10).push(digit_char(n % 10))
    }
}

/// The decimal text of an integer, with a leading `-` when negative (what
/// `to_string` writes for Rust integers).
pub open spec fn decimal_int(x: int) -> Seq<char> {
    if x < 0 {
        seq!['-'] + decimal_nat((-x) as nat)
    } else {
        decimal_nat(x as nat)
    }
}

fn digit(d: u64) -> (c: char)
    requires
        d < 10,
    ensures
        c == digit_char(d as nat),
{
    if d == 0 { '0' } else if d == 1 { '1' } else if d == 2 { '2' } else if d == 3 { '3' }
    else if d == 4 { '4' } else if d == 5 { '5' } else if d == 6 { '6' } else if d == 7 { '7' }
    else if d == 8 { '8' } else { '9' }
}

/// The decimal digits of `n`, appended to `out`.
fn push_decimal(out: &mut Vec<char>, n: u64)
    ensures
        final(out)@ == old(out)@ + decimal_nat(n as nat),
    decreases n,
{
    if n < 10 {
        out.push(digit(n));
        assert(old(out)@.push(digit_char(n as nat)) =~= old(out)@ + seq![digit_char(n as nat)]);
    } else {
        push_decimal(out, n / 10);
        out.push(digit(n % 10));
        assert(old(out)@ + decimal_nat((n / 10) as nat).push(digit_char((n % 10) as nat))
            =~= old(out)@ + decimal_nat((n / 10) as nat) + seq![digit_char((n % 10) as nat)]);
    }
}

/// The decimal text of an unsigned integer.
pub fn u64_to_string(n: u64) -> (r: String)
    ensures
        r@ == decimal_nat(n as nat),
{
    let mut cs: Vec<char> = Vec::new();
    push_decimal(&mut cs, n);
    assert(Seq::<char>::empty() + decimal_nat(n as nat) =~= decimal_nat(n as nat));
    string_from_chars(&cs)
}

/// The decimal text of a signed integer.
pub fn i64_to_string(x: i64) -> (r: String)
    ensures
        r@ == decimal_int(x as int),
{
    let mut cs: Vec<char> = Vec::new();
    if x < 0 {
        cs.push('-');
        let m: u64 = if x == i64::MIN {
            9223372036854775808u64
        } else {
            (-x) as u64
        };
        push_decimal(&mut cs, m);
    } else {
        push_decimal(&mut cs, x as u64);
        assert(Seq::<char>::empty() + decimal_nat(x as nat) =~= decimal_nat(x as nat));
    }
    string_from_chars(&cs)
}


/// What `str::parse::<i64>` reads from a text: an optional sign and decimal
/// digits denoting a value in range.
pub uninterp spec fn spec_parse_i64(s: Seq<char>) -> Option<i64>;

/// `str::parse::<i64>`, named by `spec_parse_i64`.
#[verifier::external_body]
pub(crate) fn parse_i64(s: &str) -> (r: Option<i64>)
    ensures
        r == spec_parse_i64(s@),
{
    s.parse::<i64>().ok()
}


/// The pieces of a text between the occurrences of `sep`, as `str::split`
/// yields them: one more piece than there are separators, empty pieces kept.
pub open spec fn split_chars(s: Seq<char>, sep: char) -> Seq<Seq<char>>
    decreases s.len(),
{
    if s.len() == 0 {
        seq![Seq::empty()]
    } else {
        let rest = split_chars(s.drop_last(), sep);
        if s.last() == sep {
            rest.push(Seq::empty())
        } else {
            rest.update(rest.len() - 1, rest.last().push(s.last()))
        }
    }
}

/// There is always at least one piece.
pub proof fn lemma_split_chars_len(s: Seq<char>, sep: char)
    ensures
        split_chars(s, sep).len() >= 1,
    decreases s.len(),
{
    if s.len() > 0 {
        lemma_split_chars_len(s.drop_last(), sep);
    }
}

/// The pieces of a text between the occurrences of `sep`.
pub fn split_text(s: &str, sep: char) -> (r: Vec<String>)
    ensures
        r@.map_values(|p: String| p@) == split_chars(s@, sep),
{
    let cs = chars_of(s);
    let mut done: Vec<String> = Vec::new();
    let mut cur: Vec<char> = Vec::new();
    let mut i: usize = 0;
    while i < cs.len()
        invariant
            i <= cs.len(),
            cs@ == s@,
            done@.map_values(|p: String| p@).push(cur@) == split_chars(cs@.subrange(0, i as int), sep),
        decreases cs.len() - i,
    {
        proof {
            assert(cs@.subrange(0, i + 1).drop_last() =~= cs@.subrange(0, i as int));
            lemma_split_chars_len(cs@.subrange(0, i as int), sep);
        }
        let c = cs[i];
        if c == sep {
            let piece = string_from_chars(&cur);
            let ghost before = done@;
            done.push(piece);
            cur = Vec::new();
            proof {
                assert(done@.map_values(|p: String| p@) =~= before.map_values(|p: String| p@).push(piece@));
                assert(done@.map_values(|p: String| p@).push(cur@) =~= split_chars(cs@.subrange(0, i + 1), sep));
            }
        } else {
            let ghost before = cur@;
            cur.push(c);
            proof {
                let rest = split_chars(cs@.subrange(0, i as int), sep);
                assert(done@.map_values(|p: String| p@).push(cur@) =~= rest.update(rest.len() - 1, before.push(c)));
            }
        }
        i = i + 1;
    }
    assert(cs@.subrange(0, cs.len() as int) =~= cs@);
    let last = string_from_chars(&cur);
    let ghost before = done@;
    done.push(last);
    assert(done@.map_values(|p: String| p@) =~= before.map_values(|p: String| p@).push(last@));
    done
}


/// Two texts one after the other.
pub fn concat_text(a: &str, b: &str) -> (r: String)
    ensures
        r@ == a@ + b@,
{
    let mut cs = chars_of(a);
    let bs = chars_of(b);
    let mut i: usize = 0;
    while i < bs.len()
        invariant
            i <= bs.len(),
            cs@ == a@ + bs@.subrange(0, i as int),
        decreases bs.len() - i,
    {
        cs.push(bs[i]);
        proof {
            assert(a@ + bs@.subrange(0, i + 1) =~= (a@ + bs@.subrange(0, i as int)).push(bs@[i as int]));
        }
        i = i + 1;
    }
    assert(bs@.subrange(0, bs.len() as int) =~= b@);
    string_from_chars(&cs)
}

/// A text with every occurrence of a non-empty pattern, found from the left
/// without overlapping, replaced (what `str::replace` gives).
pub open spec fn replace_all(s: Seq<char>, pat: Seq<char>, with: Seq<char>) -> Seq<char>
    decreases s.len(),
{
    if pat.len() == 0 || s.len() < pat.len() {
        s
    } else if s.subrange(0, pat.len() as int) == pat {
        with + replace_all(s.subrange(pat.len() as int, s.len() as int), pat, with)
    } else {
        seq![s[0]] + replace_all(s.subrange(1, s.len() as int), pat, with)
    }
}

/// Whether the pattern occurs in `cs` at `i`.
fn occurs_at(cs: &Vec<char>, i: usize, pat: &Vec<char>) -> (r: bool)
    requires
        i + pat.len() <= cs.len(),
    ensures
        r == (cs@.subrange(i as int, i + pat.len()) == pat@),
{
    let mut k: usize = 0;
    while k < pat.len()
        invariant
            i + pat.len() <= cs.len(),
            k <= pat.len(),
            forall|j: int| 0 <= j < k ==> cs@[i + j] == pat@[j],
        decreases pat.len() - k,
    {
        if cs[i + k] != pat[k] {
            assert(cs@.subrange(i as int, i + pat.len())[k as int] != pat@[k as int]);
            return false;
        }
        k = k + 1;
    }
    assert(cs@.subrange(i as int, i + pat.len()) =~= pat@);
    true
}

/// `str::replace` with a non-empty pattern (see `replace_all`).
pub fn replace_text(s: &str, pat: &str, with: &str) -> (r: String)
    requires
        pat@.len() > 0,
    ensures
        r@ == replace_all(s@, pat@, with@),
{
    let cs = chars_of(s);
    let ps = chars_of(pat);
    let ws = chars_of(with);
    let n = cs.len();
    let mut out: Vec<char> = Vec::new();
    let mut i: usize = 0;
    proof {
        assert(cs@.subrange(0, n as int) =~= cs@);
        assert(out@ + replace_all(cs@, ps@, ws@) =~= replace_all(cs@, ps@, ws@));
    }
    while i < n
        invariant
            n == cs.len(),
            cs@ == s@,
            ps@ == pat@,
            ws@ == with@,
            ps@.len() > 0,
            i <= n,
            out@ + replace_all(cs@.subrange(i as int, n as int), ps@, ws@) == replace_all(cs@, ps@, ws@),
        decreases n - i,
    {
        let ghost rest = cs@.subrange(i as int, n as int);
        if ps.len() <= n - i && occurs_at(&cs, i, &ps) {
            proof {
                assert(rest.subrange(0, ps@.len() as int) =~= cs@.subrange(i as int, i + ps@.len()));
                assert(rest.subrange(ps@.len() as int, rest.len() as int) =~= cs@.subrange(i + ps@.len(), n as int));
            }
            let ghost before = out@;
            let mut k: usize = 0;
            while k < ws.len()
                invariant
                    k <= ws.len(),
                    out@ == before + ws@.subrange(0, k as int),
                decreases ws.len() - k,
            {
                out.push(ws[k]);
                proof {
                    assert(before + ws@.subrange(0, k + 1) =~= (before + ws@.subrange(0, k as int)).push(ws@[k as int]));
                }
                k = k + 1;
            }
            proof {
                assert(ws@.subrange(0, ws@.len() as int) =~= ws@);
                assert(before + (ws@ + replace_all(cs@.subrange(i + ps@.len(), n as int), ps@, ws@))
                    =~= (before + ws@) + replace_all(cs@.subrange(i + ps@.len(), n as int), ps@, ws@));
            }
            i = i + ps.len();
        } else {
            proof {
                if rest.len() >= ps@.len() {
                    assert(rest.subrange(0, ps@.len() as int) =~= cs@.subrange(i as int, i + ps@.len()));
                }
                assert(rest.subrange(1, rest.len() as int) =~= cs@.subrange(i + 1, n as int));
                if rest.len() < ps@.len() {
                    assert(rest =~= seq![cs@[i as int]] + cs@.subrange(i + 1, n as int));
                    assert(cs@.subrange(i + 1, n as int).len() < ps@.len());
                }
                assert(out@.push(cs@[i as int]) + replace_all(cs@.subrange(i + 1, n as int), ps@, ws@)
                    =~= out@ + (seq![cs@[i as int]] + replace_all(cs@.subrange(i + 1, n as int), ps@, ws@)));
            }
            out.push(cs[i]);
            i = i + 1;
        }
    }
    proof {
        assert(cs@.subrange(n as int, n as int) =~= Seq::<char>::empty());
        assert(out@ + Seq::<char>::empty() =~= out@);
    }
    string_from_chars(&out)
}

/// What `str::parse::<i32>` reads: the same text as for `i64`, where the
/// value fits in `i32`.
pub open spec fn spec_parse_i32(s: Seq<char>) -> Option<i32> {
    match spec_parse_i64(s) {
        Some(x) => if i32::MIN <= x <= i32::MAX {
            Some(x as i32)
        } else {
            None
        },
        None => None,
    }
}

/// `str::parse::<i32>` (see `spec_parse_i32`).
pub fn parse_i32(s: &str) -> (r: Option<i32>)
    ensures
        r == spec_parse_i32(s@),
{
    match parse_i64(s) {
        Some(x) => if i32::MIN as i64 <= x && x <= i32::MAX as i64 {
            Some(x as i32)
        } else {
            None
        },
        None => None,
    }
}


/// The decimal digits of `n`, appended to `out`.
fn push_decimal_wide(out: &mut Vec<char>, n: u128)
    ensures
        final(out)@ == old(out)@ + decimal_nat(n as nat),
    decreases n,
{
    if n < 10 {
        out.push(digit(n as u64));
        assert(old(out)@.push(digit_char(n as nat)) =~= old(out)@ + seq![digit_char(n as nat)]);
    } else {
        push_decimal_wide(out, n / 10);
        out.push(digit((n % 10) as u64));
        assert(old(out)@ + decimal_nat((n / 10) as nat).push(digit_char((n % 10) as nat))
            =~= old(out)@ + decimal_nat((n / 10) as nat) + seq![digit_char((n % 10) as nat)]);
    }
}

/// The decimal text of a 128-bit unsigned integer.
pub fn u128_to_string(n: u128) -> (r: String)
    ensures
        r@ == decimal_nat(n as nat),
{
    let mut cs: Vec<char> = Vec::new();
    push_decimal_wide(&mut cs, n);
    assert(Seq::<char>::empty() + decimal_nat(n as nat) =~= decimal_nat(n as nat));
    string_from_chars(&cs)
}

/// Texts joined with a separator between each two.
pub open spec fn join(parts: Seq<Seq<char>>, sep: Seq<char>) -> Seq<char>
    decreases parts.len(),
{
    if parts.len() == 0 {
        Seq::empty()
    } else if parts.len() == 1 {
        parts[0]
    } else {
        join(parts.drop_last(), sep) + sep + parts.last()
    }
}

/// Texts joined with a separator between each two.
pub fn join_texts(parts: &Vec<String>, sep: &str) -> (r: String)
    ensures
        r@ == join(parts@.map_values(|p: String| p@), sep@),
{
    let ghost ps = parts@.map_values(|p: String| p@);
    let mut cs: Vec<char> = Vec::new();
    let sep_cs = chars_of(sep);
    let mut i: usize = 0;
    while i < parts.len()
        invariant
            i <= parts.len(),
            ps == parts@.map_values(|p: String| p@),
            sep_cs@ == sep@,
            cs@ == join(ps.subrange(0, i as int), sep@),
        decreases parts.len() - i,
    {
        proof {
            assert(ps.subrange(0, i + 1).drop_last() =~= ps.subrange(0, i as int));
            assert(ps.subrange(0, i + 1).last() == parts@[i as int]@);
        }
        let ghost before = cs@;
        if i > 0 {
            let mut k: usize = 0;
            while k < sep_cs.len()
                invariant
                    k <= sep_cs.len(),
                    cs@ == before + sep_cs@.subrange(0, k as int),
                decreases sep_cs.len() - k,
            {
                cs.push(sep_cs[k]);
                proof {
                    assert(before + sep_cs@.subrange(0, k + 1) =~= (before + sep_cs@.subrange(0, k as int)).push(sep_cs@[k as int]));
                }
                k = k + 1;
            }
            assert(sep_cs@.subrange(0, sep_cs.len() as int) =~= sep@);
        }
        let ghost mid = cs@;
        let piece = chars_of(parts[i].as_str());
        let mut k: usize = 0;
        while k < piece.len()
            invariant
                k <= piece.len(),
                cs@ == mid + piece@.subrange(0, k as int),
            decreases piece.len() - k,
        {
            cs.push(piece[k]);
            proof {
                assert(mid + piece@.subrange(0, k + 1) =~= (mid + piece@.subrange(0, k as int)).push(piece@[k as int]));
            }
            k = k + 1;
        }
        proof {
            assert(piece@.subrange(0, piece.len() as int) =~= piece@);
            if i == 0 {
                assert(ps.subrange(0, 1) =~= seq![ps[0]]);
                assert(before =~= Seq::<char>::empty());
                assert(cs@ =~= ps[0]);
            }
        }
        i = i + 1;
    }
    assert(ps.subrange(0, parts.len() as int) =~= ps);
    string_from_chars(&cs)
}

} // verus!
