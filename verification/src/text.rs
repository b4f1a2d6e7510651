//! Character-level text handling shared by the commands: splitting, joining,
//! decimal numbers, substitution and case folding.
use vstd::prelude::*;

verus! {

broadcast use vstd::string::group_string_axioms;

// ---------------------------------------------------------------------------
// Trusted items from std

/// `String::push`: the string afterwards is the string before with `c` added at the end.
#[verifier::external_body]
pub(crate) fn push_char(s: &mut String, c: char)
    ensures
        final(s)@ == old(s)@.push(c),
{
    s.push(c);
}

/// What `str::to_lowercase` gives for a string: Unicode's full lowercase mapping (a final
/// capital sigma lowercased by its context).
pub uninterp spec fn lowercase(s: Seq<char>) -> Seq<char>;

/// `str::to_lowercase`: the result is named by `lowercase` and depends on the input alone.
#[verifier::external_body]
pub(crate) fn to_lowercase(s: &str) -> (res: String)
    ensures
        res@ == lowercase(s@),
{
    s.to_lowercase()
}

// ---------------------------------------------------------------------------
// Basic conversions

/// The characters of a string, in order.
pub fn chars_of(s: &str) -> (v: Vec<char>)
    ensures
        v@ == s@,
{
    let mut v: Vec<char> = Vec::new();
    for c in it: s.chars()
        invariant
            v@ == it.seq().take(it.index() as int),
    {
        v.push(c);
    }
    v
}

/// A string holding exactly the given characters.
pub fn string_of(chars: &[char]) -> (s: String)
    ensures
        s@ == chars@,
{
    let mut s = String::new();
    let mut i: usize = 0;
    while i < chars.len()
        invariant
            i <= chars@.len(),
            s@ == chars@.take(i as int),
        decreases chars@.len() - i,
    {
        push_char(&mut s, chars[i]);
        i = i + 1;
        assert(s@ == chars@.take(i as int));
    }
    assert(chars@.take(chars@.len() as int) == chars@);
    s
}

/// Appends every character of `t` to `s`.
pub fn push_str(s: &mut String, t: &str)
    ensures
        final(s)@ == old(s)@ + t@,
{
    let cs = chars_of(t);
    let mut i: usize = 0;
    while i < cs.len()
        invariant
            i <= cs@.len(),
            cs@ == t@,
            s@ == old(s)@ + cs@.take(i as int),
        decreases cs@.len() - i,
    {
        push_char(s, cs[i]);
        i = i + 1;
        assert(s@ == old(s)@ + cs@.take(i as int));
    }
    assert(cs@.take(cs@.len() as int) == cs@);
}

/// Whether two strings hold the same characters.
pub fn same_text(a: &str, b: &str) -> (res: bool)
    ensures
        res == (a@ == b@),
{
    let x = a.to_owned();
    let y = b.to_owned();
    x == y
}

/// Whether two strings are equal once both are lowercased.
pub fn same_text_ignoring_case(a: &str, b: &str) -> (res: bool)
    ensures
        res == (lowercase(a@) == lowercase(b@)),
{
    let x = to_lowercase(a);
    let y = to_lowercase(b);
    x == y
}

// ---------------------------------------------------------------------------
// Joining

/// The views of a sequence of strings.
pub open spec fn views(v: Seq<String>) -> Seq<Seq<char>> {
    v.map_values(|s: String| s@)
}

/// The parts laid end to end with `sep` between each neighbouring pair.
pub open spec fn join(parts: Seq<Seq<char>>, sep: Seq<char>) -> Seq<char>
    decreases parts.len(),
{
    if parts.len() == 0 {
        Seq::empty()
    } else if parts.len() == 1 {
        parts[0]
    } else {
        join(parts.drop_last(), sep) + sep + parts.last()
    }
}

/// Joins the parts with `sep` between neighbours, like `[String]::join`.
pub fn join_strings(parts: &Vec<String>, sep: &str) -> (res: String)
    ensures
        res@ == join(views(parts@), sep@),
{
    let mut res = String::new();
    let mut i: usize = 0;
    while i < parts.len()
        invariant
            i <= parts@.len(),
            res@ == join(views(parts@).take(i as int), sep@),
        decreases parts@.len() - i,
    {
        let ghost before = views(parts@).take(i as int);
        if i > 0 {
            push_str(&mut res, sep);
        }
        push_str(&mut res, parts[i].as_str());
        i = i + 1;
        assert(views(parts@).take(i as int).drop_last() == before);
    }
    assert(views(parts@).take(parts@.len() as int) == views(parts@));
    res
}

// ---------------------------------------------------------------------------
// Splitting

/// The pieces of `s` between occurrences of `sep`, like `str::split` with a character:
/// there is always one more piece than there are separators.
pub open spec fn split(s: Seq<char>, sep: char) -> Seq<Seq<char>>
    decreases s.len(),
{
    if s.len() == 0 {
        seq![Seq::empty()]
    } else {
        let p = split(s.drop_last(), sep);
        if s.last() == sep {
            p.push(Seq::empty())
        } else {
            p.update(p.len() - 1, p.last().push(s.last()))
        }
    }
}

pub(crate) proof fn lemma_split_nonempty(s: Seq<char>, sep: char)
    ensures
        split(s, sep).len() >= 1,
    decreases s.len(),
{
    if s.len() > 0 {
        lemma_split_nonempty(s.drop_last(), sep);
    }
}

/// Splits `s` at every `sep`.
pub fn split_on(s: &str, sep: char) -> (res: Vec<String>)
    ensures
        views(res@) == split(s@, sep),
{
    let cs = chars_of(s);
    let mut res: Vec<String> = Vec::new();
    let mut cur: Vec<char> = Vec::new();
    let mut i: usize = 0;
    while i < cs.len()
        invariant
            i <= cs@.len(),
            cs@ == s@,
            views(res@).push(cur@) == split(cs@.take(i as int), sep),
        decreases cs@.len() - i,
    {
        let c = cs[i];
        let ghost prev = split(cs@.take(i as int), sep);
        proof {
            let t = cs@.take(i as int + 1);
            assert(t.drop_last() == cs@.take(i as int));
            lemma_split_nonempty(cs@.take(i as int), sep);
        }
        if c == sep {
            let piece = string_of(cur.as_slice());
            let ghost old_views = views(res@);
            res.push(piece);
            cur = Vec::new();
            assert(views(res@) == old_views.push(piece@));
            assert(views(res@).push(cur@) == prev.push(Seq::empty()));
        } else {
            let ghost old_cur = cur@;
            cur.push(c);
            assert(views(res@).push(cur@) == prev.update(prev.len() - 1, old_cur.push(c)));
        }
        i = i + 1;
    }
    let piece = string_of(cur.as_slice());
    let ghost old_views = views(res@);
    res.push(piece);
    assert(views(res@) == old_views.push(piece@));
    assert(cs@.take(cs@.len() as int) == cs@);
    assert(views(res@) == split(s@, sep));
    res
}

// ---------------------------------------------------------------------------
// Whitespace and words

/// Unicode's `White_Space` property, which `char::is_whitespace` tests.
pub open spec fn is_space(c: char) -> bool {
    let n = c as u32;
    ||| 0x09 <= n <= 0x0d
    ||| n == 0x20
    ||| n == 0x85
    ||| n == 0xa0
    ||| n == 0x1680
    ||| 0x2000 <= n <= 0x200a
    ||| n == 0x2028
    ||| n == 0x2029
    ||| n == 0x202f
    ||| n == 0x205f
    ||| n == 0x3000
}

/// Whether `c` is whitespace.
pub fn is_space_char(c: char) -> (res: bool)
    ensures
        res == is_space(c),
{
    let n = c as u32;
    (0x09 <= n && n <= 0x0d) || n == 0x20 || n == 0x85 || n == 0xa0 || n == 0x1680 || (0x2000
        <= n && n <= 0x200a) || n == 0x2028 || n == 0x2029 || n == 0x202f || n == 0x205f || n
        == 0x3000
}

/// The maximal runs of non-whitespace characters of `s`, in order, like `str::split_whitespace`.
pub open spec fn words(s: Seq<char>) -> Seq<Seq<char>>
    decreases s.len(),
{
    if s.len() == 0 {
        Seq::empty()
    } else {
        let p = words(s.drop_last());
        let c = s.last();
        if is_space(c) {
            p
        } else if s.len() == 1 || is_space(s[s.len() - 2]) {
            p.push(seq![c])
        } else {
            p.update(p.len() - 1, p.last().push(c))
        }
    }
}

proof fn lemma_words_last(s: Seq<char>)
    requires
        s.len() > 0,
        !is_space(s.last()),
    ensures
        words(s).len() > 0,
        words(s).last().len() > 0,
        words(s).last().last() == s.last(),
    decreases s.len(),
{
    let p = words(s.drop_last());
    if s.len() == 1 || is_space(s[s.len() - 2]) {
    } else {
        let d = s.drop_last();
        assert(d.last() == s[s.len() - 2]);
        lemma_words_last(d);
    }
}

/// Splits `s` into its words.
pub fn split_words(s: &str) -> (res: Vec<String>)
    ensures
        views(res@) == words(s@),
{
    let cs = chars_of(s);
    let mut res: Vec<String> = Vec::new();
    let mut cur: Vec<char> = Vec::new();
    let mut in_word = false;
    let mut i: usize = 0;
    while i < cs.len()
        invariant
            i <= cs@.len(),
            cs@ == s@,
            in_word == (i > 0 && !is_space(cs@[i - 1])),
            in_word ==> views(res@).push(cur@) == words(cs@.take(i as int)),
            !in_word ==> views(res@) == words(cs@.take(i as int)),
        decreases cs@.len() - i,
    {
        let c = cs[i];
        let ghost t = cs@.take(i as int + 1);
        proof {
            assert(t.drop_last() == cs@.take(i as int));
            assert(t.last() == c);
            if i > 0 {
                assert(t[t.len() - 2] == cs@[i - 1]);
            }
        }
        if is_space_char(c) {
            if in_word {
                let piece = string_of(cur.as_slice());
                let ghost old_views = views(res@);
                res.push(piece);
                assert(views(res@) == old_views.push(piece@));
                cur = Vec::new();
            }
            in_word = false;
        } else {
            if in_word {
                let ghost old_cur = cur@;
                cur.push(c);
                assert(views(res@).push(cur@) == words(cs@.take(i as int)).update(
                    words(cs@.take(i as int)).len() - 1,
                    old_cur.push(c),
                ));
            } else {
                cur = Vec::new();
                cur.push(c);
                assert(cur@ == seq![c]);
            }
            in_word = true;
        }
        i = i + 1;
    }
    assert(cs@.take(cs@.len() as int) == cs@);
    if in_word {
        let piece = string_of(cur.as_slice());
        let ghost old_views = views(res@);
        res.push(piece);
        assert(views(res@) == old_views.push(piece@));
    }
    res
}

// ---------------------------------------------------------------------------
// Decimal numbers

/// The ASCII digit for `d`, for `d` below ten.
pub open spec fn digit(d: nat) -> char {
    if d == 0 {
        '0'
    } else if d == 1 {
        '1'
    } else if d == 2 {
        '2'
    } else if d == 3 {
        '3'
    } else if d == 4 {
        '4'
    } else if d == 5 {
        '5'
    } else if d == 6 {
        '6'
    } else if d == 7 {
        '7'
    } else if d == 8 {
        '8'
    } else {
        '9'
    }
}

/// The numeric value of an ASCII digit.
pub open spec fn digit_value(c: char) -> nat {
    ((c as u32) - 48) as nat
}

fn digit_char(d: u64) -> (c: char)
    requires
        d < 10,
    ensures
        c == digit(d as nat),
{
    if d == 0 {
        '0'
    } else if d == 1 {
        '1'
    } else if d == 2 {
        '2'
    } else if d == 3 {
        '3'
    } else if d == 4 {
        '4'
    } else if d == 5 {
        '5'
    } else if d == 6 {
        '6'
    } else if d == 7 {
        '7'
    } else if d == 8 {
        '8'
    } else {
        '9'
    }
}

/// Whether `c` is an ASCII digit.
pub open spec fn is_digit(c: char) -> bool {
    '0' <= c <= '9'
}

/// The decimal digits of `n`, most significant first, with no leading zero.
pub open spec fn nat_text(n: nat) -> Seq<char>
    decreases n,
{
    if n < 10 {
        seq![digit(n)]
    } else {
        nat_text(n / 10).push(digit(n % 10))
    }
}

/// The decimal text of `i`, with a `-` in front when it is negative, as `Display` writes it.
pub open spec fn int_text(i: int) -> Seq<char> {
    if i < 0 {
        seq!['-'] + nat_text((-i) as nat)
    } else {
        nat_text(i as nat)
    }
}

/// Appends the decimal digits of `n`.
pub fn push_u64(s: &mut String, n: u64)
    ensures
        final(s)@ == old(s)@ + nat_text(n as nat),
    decreases n,
{
    if n >= 10 {
        push_u64(s, n / 10);
    }
    push_char(s, digit_char(n % 10));
    assert(final(s)@ == old(s)@ + nat_text(n as nat));
}

/// Appends the decimal text of `n`.
pub fn push_i64(s: &mut String, n: i64)
    ensures
        final(s)@ == old(s)@ + int_text(n as int),
{
    if n < 0 {
        push_char(s, '-');
        let m: u64 = ((-(n + 1)) as u64) + 1;
        push_u64(s, m);
        assert(final(s)@ == old(s)@ + int_text(n as int));
    } else {
        push_u64(s, n as u64);
    }
}

/// The value of a run of ASCII digits.
pub open spec fn digits_value(s: Seq<char>) -> nat
    decreases s.len(),
{
    if s.len() == 0 {
        0
    } else {
        digits_value(s.drop_last()) * 10 + digit_value(s.last())
    }
}

/// Whether every character of `s` is an ASCII digit.
pub open spec fn all_digits(s: Seq<char>) -> bool {
    forall|k: int| 0 <= k < s.len() ==> is_digit(#[trigger] s[k])
}

/// What `str::parse::<i32>` gives: an optional `+` or `-`, then one or more ASCII digits,
/// whose value must fit in an `i32`.
pub open spec fn parse_i32(s: Seq<char>) -> Option<i32> {
    let signed = s.len() > 0 && (s[0] == '+' || s[0] == '-');
    let negative = s.len() > 0 && s[0] == '-';
    let body = if signed { s.drop_first() } else { s };
    let magnitude = digits_value(body) as int;
    let value = if negative { -magnitude } else { magnitude };
    if body.len() == 0 || !all_digits(body) || value < i32::MIN || value > i32::MAX {
        None
    } else {
        Some(value as i32)
    }
}

proof fn lemma_digits_value_grows(s: Seq<char>, i: int)
    requires
        0 <= i <= s.len(),
    ensures
        digits_value(s.take(i)) <= digits_value(s),
    decreases s.len() - i,
{
    if i < s.len() {
        lemma_digits_value_grows(s, i + 1);
        assert(s.take(i + 1).drop_last() == s.take(i));
    } else {
        assert(s.take(i) == s);
    }
}

/// Parses an `i32` the way `str::parse::<i32>` does; `None` where it gives an error.
pub fn parse_i32_text(s: &str) -> (res: Option<i32>)
    ensures
        res == parse_i32(s@),
{
    let cs = chars_of(s);
    let n = cs.len();
    let mut start: usize = 0;
    let mut negative = false;
    if n > 0 && (cs[0] == '+' || cs[0] == '-') {
        start = 1;
        negative = cs[0] == '-';
    }
    let ghost body = if start == 1 { cs@.drop_first() } else { cs@ };
    if start == n {
        return None;
    }
    // Magnitudes above this bound fit in no i32 with either sign.
    let bound: u64 = 0x8000_0001;
    let mut acc: u64 = 0;
    let mut i: usize = start;
    while i < n
        invariant
            start <= i <= n,
            n == cs@.len(),
            cs@ == s@,
            start == 0 || start == 1,
            (start == 1) == (s@.len() > 0 && (s@[0] == '+' || s@[0] == '-')),
            negative == (s@.len() > 0 && s@[0] == '-'),
            body == cs@.subrange(start as int, n as int),
            all_digits(cs@.subrange(start as int, i as int)),
            bound == 0x8000_0001,
            acc <= bound,
            acc < bound ==> acc == digits_value(cs@.subrange(start as int, i as int)),
            acc == bound ==> digits_value(cs@.subrange(start as int, i as int)) >= bound,
        decreases n - i,
    {
        let c = cs[i];
        let ghost pre = cs@.subrange(start as int, i as int);
        let ghost next = cs@.subrange(start as int, i as int + 1);
        assert(next.drop_last() == pre);
        if !('0' <= c && c <= '9') {
            assert(body[i - start] == cs@[i as int]);
            assert(!is_digit(body[i - start]));
            assert(!all_digits(body));
            return None;
        }
        let d = (c as u32 - 48) as u64;
        if acc < bound {
            assert(acc * 10 <= 0x8000_0001 * 10) by (nonlinear_arith)
                requires
                    acc <= 0x8000_0001,
            ;
            let v = acc * 10 + d;
            acc = if v > bound { bound } else { v };
        }
        i = i + 1;
        assert(all_digits(cs@.subrange(start as int, i as int)));
    }
    assert(body == cs@.subrange(start as int, n as int));
    if acc == bound {
        return None;
    }
    let v: i64 = if negative { -(acc as i64) } else { acc as i64 };
    if v < -0x8000_0000 || v > 0x7fff_ffff {
        None
    } else {
        Some(v as i32)
    }
}

/// What `str::parse::<u64>` gives: an optional `+`, then one or more ASCII digits, whose
/// value must fit in a `u64`.
pub open spec fn parse_u64(s: Seq<char>) -> Option<u64> {
    let body = if s.len() > 0 && s[0] == '+' { s.drop_first() } else { s };
    if body.len() == 0 || !all_digits(body) || digits_value(body) > u64::MAX {
        None
    } else {
        Some(digits_value(body) as u64)
    }
}

/// Parses a `u64` the way `str::parse::<u64>` does; `None` where it gives an error.
pub fn parse_u64_text(s: &str) -> (res: Option<u64>)
    ensures
        res == parse_u64(s@),
{
    let cs = chars_of(s);
    let n = cs.len();
    let mut start: usize = 0;
    if n > 0 && cs[0] == '+' {
        start = 1;
    }
    let ghost body = if start == 1 { cs@.drop_first() } else { cs@ };
    if start == n {
        return None;
    }
    let mut acc: u64 = 0;
    let mut overflow = false;
    let mut i: usize = start;
    while i < n
        invariant
            start <= i <= n,
            n == cs@.len(),
            cs@ == s@,
            start == 0 || start == 1,
            (start == 1) == (s@.len() > 0 && s@[0] == '+'),
            body == cs@.subrange(start as int, n as int),
            all_digits(cs@.subrange(start as int, i as int)),
            !overflow ==> acc == digits_value(cs@.subrange(start as int, i as int)),
            overflow ==> digits_value(cs@.subrange(start as int, i as int)) > u64::MAX,
        decreases n - i,
    {
        let c = cs[i];
        let ghost pre = cs@.subrange(start as int, i as int);
        let ghost next = cs@.subrange(start as int, i as int + 1);
        assert(next.drop_last() == pre);
        if !('0' <= c && c <= '9') {
            assert(body[i - start] == cs@[i as int]);
            assert(!is_digit(body[i - start]));
            assert(!all_digits(body));
            return None;
        }
        let d = (c as u32 - 48) as u64;
        if !overflow {
            if acc > (u64::MAX - d) / 10 {
                assert(acc * 10 + d > u64::MAX) by (nonlinear_arith)
                    requires
                        acc > (u64::MAX - d) / 10,
                        d < 10,
                ;
                overflow = true;
            } else {
                assert(acc * 10 + d <= u64::MAX) by (nonlinear_arith)
                    requires
                        acc <= (u64::MAX - d) / 10,
                        d < 10,
                ;
                acc = acc * 10 + d;
            }
        } else {
            assert(digits_value(next) >= digits_value(pre) * 10);
            assert(digits_value(pre) * 10 >= digits_value(pre)) by (nonlinear_arith);
        }
        i = i + 1;
        assert(all_digits(cs@.subrange(start as int, i as int)));
    }
    assert(body == cs@.subrange(start as int, n as int));
    if overflow {
        return None;
    }
    Some(acc)
}

proof fn lemma_nat_text_digits(n: nat)
    ensures
        nat_text(n).len() > 0,
        all_digits(nat_text(n)),
        digits_value(nat_text(n)) == n,
        nat_text(n)[0] != '+' && nat_text(n)[0] != '-',
    decreases n,
{
    if n >= 10 {
        lemma_nat_text_digits(n / 10);
        let t = nat_text(n);
        assert(t.drop_last() == nat_text(n / 10));
        assert(digit_value(digit(n % 10)) == n % 10);
        assert(digits_value(t) == digits_value(t.drop_last()) * 10 + digit_value(t.last()));
        assert(n == (n / 10) * 10 + n % 10) by (nonlinear_arith);
        assert(digits_value(t) == n);
        assert forall|k: int| 0 <= k < t.len() implies is_digit(#[trigger] t[k]) by {
            if k < t.len() - 1 {
                assert(t[k] == nat_text(n / 10)[k]);
            }
        }
    } else {
        assert(digit_value(digit(n)) == n);
        assert(nat_text(n).drop_last() == Seq::<char>::empty());
        assert(digits_value(Seq::<char>::empty()) == 0);
        assert(digits_value(nat_text(n)) == n);
    }
}

/// Reading back the decimal text of an `i32` gives the same `i32`.
pub proof fn lemma_i32_text_roundtrip(v: i32)
    ensures
        parse_i32(int_text(v as int)) == Some(v),
{
    if v < 0 {
        let m = (-(v as int)) as nat;
        lemma_nat_text_digits(m);
        let t = int_text(v as int);
        assert(t.drop_first() == nat_text(m));
    } else {
        lemma_nat_text_digits(v as nat);
    }
}

// ---------------------------------------------------------------------------
// Substitution

/// Every occurrence of the non-empty `pat` in `s`, found left to right without overlap,
/// replaced by `rep`, as `str::replace` does.
pub open spec fn replace_all(s: Seq<char>, pat: Seq<char>, rep: Seq<char>) -> Seq<char>
    recommends
        pat.len() > 0,
    decreases s.len(),
{
    if pat.len() == 0 || s.len() < pat.len() {
        s
    } else if s.take(pat.len() as int) == pat {
        rep + replace_all(s.skip(pat.len() as int), pat, rep)
    } else {
        seq![s[0]] + replace_all(s.skip(1), pat, rep)
    }
}

fn window_matches(cs: &Vec<char>, at: usize, pat: &Vec<char>) -> (res: bool)
    requires
        at + pat@.len() <= cs@.len(),
    ensures
        res == (cs@.subrange(at as int, at + pat@.len()) == pat@),
{
    let total = cs.len();
    let mut k: usize = 0;
    while k < pat.len()
        invariant
            k <= pat@.len(),
            at + pat@.len() <= cs@.len(),
            total == cs@.len(),
            forall|j: int| 0 <= j < k ==> cs@[at + j] == pat@[j],
        decreases pat@.len() - k,
    {
        assert(at + k < cs@.len());
        if cs[at + k] != pat[k] {
            assert(cs@.subrange(at as int, at + pat@.len())[k as int] != pat@[k as int]);
            return false;
        }
        k = k + 1;
    }
    assert(cs@.subrange(at as int, at + pat@.len()) == pat@);
    true
}

/// Replaces every occurrence of the non-empty `pat` in `s` by `rep`.
pub fn replace_text(s: &str, pat: &str, rep: &str) -> (res: String)
    requires
        pat@.len() > 0,
    ensures
        res@ == replace_all(s@, pat@, rep@),
{
    let cs = chars_of(s);
    let ps = chars_of(pat);
    let mut out = String::new();
    let mut i: usize = 0;
    assert(cs@.skip(0) == cs@);
    while i < cs.len()
        invariant
            i <= cs@.len(),
            cs@ == s@,
            ps@ == pat@,
            ps@.len() > 0,
            out@ + replace_all(cs@.skip(i as int), ps@, rep@) == replace_all(cs@, ps@, rep@),
        decreases cs@.len() - i,
    {
        let ghost rest = cs@.skip(i as int);
        if cs.len() - i < ps.len() {
            proof {
                assert(replace_all(rest, ps@, rep@) == rest);
            }
            while i < cs.len()
                invariant
                    i <= cs@.len(),
                    cs@ == s@,
                    ps@.len() > 0,
                    out@ + cs@.skip(i as int) == replace_all(cs@, ps@, rep@),
                decreases cs@.len() - i,
            {
                let ghost r = cs@.skip(i as int);
                push_char(&mut out, cs[i]);
                assert(r == seq![cs@[i as int]] + cs@.skip(i + 1));
                i = i + 1;
            }
            assert(cs@.skip(i as int) == Seq::<char>::empty());
            assert(replace_all(cs@.skip(i as int), ps@, rep@) == Seq::<char>::empty());
        } else if window_matches(&cs, i, &ps) {
            assert(rest.take(ps@.len() as int) == cs@.subrange(i as int, i + ps@.len()));
            assert(rest.skip(ps@.len() as int) == cs@.skip(i + ps@.len()));
            push_str(&mut out, rep);
            i = i + ps.len();
        } else {
            assert(rest.take(ps@.len() as int) == cs@.subrange(i as int, i + ps@.len()));
            assert(rest.skip(1) == cs@.skip(i + 1));
            assert(rest[0] == cs@[i as int]);
            push_char(&mut out, cs[i]);
            i = i + 1;
        }
    }
    assert(cs@.skip(i as int) == Seq::<char>::empty());
    out
}

} // verus!
