//! Character-level text operations: decimal rendering, padding, joining,
//! searching and replacing, each with a mathematical model over `Seq<char>`.
use vstd::prelude::*;

verus! {

/// The character of a decimal digit `d` (0 to 9).
pub open spec fn digit_char(d: int) -> char {
    if d == 0 { '0' }
    else if d == 1 { '1' }
    else if d == 2 { '2' }
    else if d == 3 { '3' }
    else if d == 4 { '4' }
    else if d == 5 { '5' }
    else if d == 6 { '6' }
    else if d == 7 { '7' }
    else if d == 8 { '8' }
    else { '9' }
}

/// Decimal notation of a natural number, without leading zeros.
pub open spec fn decimal(n: nat) -> Seq<char>
    decreases n,
{
    if n < 10 {
        seq![digit_char(n as int)]
    } else {
        decimal(n / 10).push(digit_char((n % 10) as int))
    }
}

/// Decimal notation of an integer, with a leading `-` when negative.
pub open spec fn signed_decimal(n: int) -> Seq<char> {
    if n < 0 {
        seq!['-'] + decimal((-n) as nat)
    } else {
        decimal(n as nat)
    }
}

/// `s` preceded by as many copies of `fill` as needed to reach `width` characters.
pub open spec fn pad_left(s: Seq<char>, fill: char, width: nat) -> Seq<char> {
    if s.len() >= width {
        s
    } else {
        Seq::new((width - s.len()) as nat, |_i: int| fill) + s
    }
}

/// Sign-aware zero padding of an integer to `width` characters (the `{:0w}` format).
pub open spec fn zero_padded(n: int, width: nat) -> Seq<char> {
    if n < 0 {
        seq!['-'] + pad_left(decimal((-n) as nat), '0', if width >= 1 { (width - 1) as nat } else { 0 })
    } else {
        pad_left(decimal(n as nat), '0', width)
    }
}

/// The elements of `list` joined, with `sep` between neighbours.
pub open spec fn joined(list: Seq<Seq<char>>, sep: Seq<char>) -> Seq<char>
    decreases list.len(),
{
    if list.len() == 0 {
        Seq::empty()
    } else if list.len() == 1 {
        list[0]
    } else {
        joined(list.drop_last(), sep) + sep + list.last()
    }
}

/// Whether `pat` occurs in `text` starting at position `i`.
pub open spec fn occurs_at(text: Seq<char>, pat: Seq<char>, i: int) -> bool {
    0 <= i && i + pat.len() <= text.len() && text.subrange(i, i + pat.len()) == pat
}

/// The suffix of `text` from position `i`, with every non-overlapping occurrence of
/// `pat`, found from left to right, replaced by `rep`.
pub open spec fn replaced_from(text: Seq<char>, pat: Seq<char>, rep: Seq<char>, i: nat) -> Seq<char>
    decreases text.len() - i,
{
    if pat.len() == 0 || i + pat.len() > text.len() {
        text.subrange(i as int, text.len() as int)
    } else if text.subrange(i as int, (i + pat.len()) as int) == pat {
        rep + replaced_from(text, pat, rep, i + pat.len())
    } else {
        seq![text[i as int]] + replaced_from(text, pat, rep, i + 1)
    }
}

/// `text` with every non-overlapping occurrence of the non-empty `pat`, found from
/// left to right, replaced by `rep`.
pub open spec fn replaced(text: Seq<char>, pat: Seq<char>, rep: Seq<char>) -> Seq<char> {
    replaced_from(text, pat, rep, 0)
}

/// Whether `text` ends with `suffix`.
pub open spec fn has_suffix(text: Seq<char>, suffix: Seq<char>) -> bool {
    suffix.len() <= text.len() && text.subrange(text.len() - suffix.len(), text.len() as int) == suffix
}

/// Whether `text` starts with `prefix`.
pub open spec fn has_prefix(text: Seq<char>, prefix: Seq<char>) -> bool {
    prefix.len() <= text.len() && text.subrange(0, prefix.len() as int) == prefix
}

/// The pieces of `text` between occurrences of `sep`, from position `start`
/// (the `str::split` of a single character).
pub open spec fn split_from(text: Seq<char>, sep: char, start: nat) -> Seq<Seq<char>>
    decreases text.len() - start,
{
    if start >= text.len() {
        seq![Seq::<char>::empty()]
    } else if text[start as int] == sep {
        seq![Seq::<char>::empty()] + split_from(text, sep, start + 1)
    } else {
        let rest = split_from(text, sep, start + 1);
        rest.update(0, seq![text[start as int]] + rest[0])
    }
}

/// The pieces of `text` between occurrences of `sep` (always at least one piece).
pub open spec fn split_on(text: Seq<char>, sep: char) -> Seq<Seq<char>> {
    split_from(text, sep, 0)
}

/// The ASCII lowercase of a character.
pub open spec fn ascii_lower_char(c: char) -> char {
    if 'A' <= c && c <= 'Z' { ((c as u32) + 32) as char } else { c }
}

/// The ASCII lowercase of a text.
pub open spec fn ascii_lower(s: Seq<char>) -> Seq<char> {
    s.map_values(|c: char| ascii_lower_char(c))
}

/// Whether every character of `s` is ASCII.
pub open spec fn all_ascii(s: Seq<char>) -> bool {
    forall|i: int| 0 <= i < s.len() ==> (s[i] as u32) < 128
}

/// What `str::to_lowercase` returns for `s` (Unicode lowercase mapping).
pub uninterp spec fn unicode_lowercase(s: Seq<char>) -> Seq<char>;

/// Appends one character (`String::push`).
#[verifier::external_body]
pub fn push_char(s: &mut String, c: char)
    ensures
        final(s)@ == old(s)@.push(c),
{
    s.push(c)
}

/// Lowercase copy of a text (`str::to_lowercase`); ASCII letters map to their
/// lowercase forms and other ASCII characters are kept.
#[verifier::external_body]
pub fn to_lowercase(s: &str) -> (r: String)
    ensures
        r@ == (if all_ascii(s@) { ascii_lower(s@) } else { unicode_lowercase(s@) }),
{
    s.to_lowercase()
}

/// Copy of a string slice.
pub fn copy_str(s: &str) -> (r: String)
    ensures
        r@ == s@,
{
    let mut r = String::new();
    r.append(s);
    proof {
        assert(r@ =~= s@);
    }
    r
}

/// The characters of a string slice.
pub fn chars_of(s: &str) -> (v: Vec<char>)
    ensures
        v@ == s@,
{
    let n = s.unicode_len();
    let mut v: Vec<char> = Vec::new();
    let mut i: usize = 0;
    while i < n
        invariant
            n == s@.len(),
            i <= n,
            v@ == s@.subrange(0, i as int),
        decreases n - i,
    {
        let c = s.get_char(i);
        v.push(c);
        i += 1;
        proof {
            assert(v@ =~= s@.subrange(0, i as int));
        }
    }
    proof {
        assert(v@ =~= s@);
    }
    v
}

/// Appends the characters `v[from..to]` to `out`.
pub fn push_chars(out: &mut String, v: &Vec<char>, from: usize, to: usize)
    requires
        from <= to <= v@.len(),
    ensures
        final(out)@ == old(out)@ + v@.subrange(from as int, to as int),
{
    let ghost start = out@;
    let mut i = from;
    while i < to
        invariant
            from <= i <= to <= v@.len(),
            out@ == start + v@.subrange(from as int, i as int),
        decreases to - i,
    {
        push_char(out, v[i]);
        i += 1;
        proof {
            assert(out@ =~= start + v@.subrange(from as int, i as int));
        }
    }
}

/// The decimal digit character of `d`.
pub fn digit(d: u64) -> (c: char)
    requires
        d < 10,
    ensures
        c == digit_char(d as int),
{
    if d == 0 { '0' }
    else if d == 1 { '1' }
    else if d == 2 { '2' }
    else if d == 3 { '3' }
    else if d == 4 { '4' }
    else if d == 5 { '5' }
    else if d == 6 { '6' }
    else if d == 7 { '7' }
    else if d == 8 { '8' }
    else { '9' }
}

/// Appends the decimal notation of `n` to `out`.
pub fn push_decimal(out: &mut String, n: u64)
    ensures
        final(out)@ == old(out)@ + decimal(n as nat),
    decreases n,
{
    if n >= 10 {
        push_decimal(out, n / 10);
    }
    let ghost mid = out@;
    push_char(out, digit(n % 10));
    proof {
        if n >= 10 {
            assert(decimal(n as nat) == decimal((n / 10) as nat).push(digit_char((n % 10) as int)));
            assert(out@ =~= old(out)@ + decimal(n as nat));
        } else {
            assert(decimal(n as nat) == seq![digit_char(n as int)]);
            assert(out@ =~= old(out)@ + decimal(n as nat));
        }
    }
}

/// Decimal notation of an unsigned number (`to_string`).
pub fn decimal_string(n: u64) -> (r: String)
    ensures
        r@ == decimal(n as nat),
{
    let mut r = String::new();
    push_decimal(&mut r, n);
    proof {
        assert(r@ =~= decimal(n as nat));
    }
    r
}

/// Decimal notation of a signed number (`to_string`).
pub fn signed_decimal_string(n: i64) -> (r: String)
    ensures
        r@ == signed_decimal(n as int),
{
    let mut r = String::new();
    if n < 0 {
        push_char(&mut r, '-');
        let m: u64 = if n == i64::MIN { 9223372036854775808u64 } else { (-n) as u64 };
        push_decimal(&mut r, m);
        proof {
            assert(r@ =~= signed_decimal(n as int));
        }
    } else {
        push_decimal(&mut r, n as u64);
        proof {
            assert(r@ =~= signed_decimal(n as int));
        }
    }
    r
}

/// Appends `count` copies of `fill` to `out`.
pub fn push_repeated(out: &mut String, fill: char, count: usize)
    ensures
        final(out)@ == old(out)@ + Seq::new(count as nat, |_i: int| fill),
{
    let ghost start = out@;
    let mut k: usize = 0;
    while k < count
        invariant
            k <= count,
            out@ == start + Seq::new(k as nat, |_i: int| fill),
        decreases count - k,
    {
        push_char(out, fill);
        k += 1;
        proof {
            assert(out@ =~= start + Seq::new(k as nat, |_i: int| fill));
        }
    }
}

/// `s` padded on the left with `fill` to `width` characters (the `{:f>w}` format).
pub fn pad_left_string(s: &str, fill: char, width: usize) -> (r: String)
    ensures
        r@ == pad_left(s@, fill, width as nat),
{
    let n = s.unicode_len();
    let mut r = String::new();
    if n < width {
        push_repeated(&mut r, fill, width - n);
    }
    r.append(s);
    proof {
        assert(r@ =~= pad_left(s@, fill, width as nat));
    }
    r
}

/// Sign-aware zero-padded decimal notation (the `{:0w}` format).
pub fn zero_padded_string(n: i64, width: usize) -> (r: String)
    ensures
        r@ == zero_padded(n as int, width as nat),
{
    if n < 0 {
        let m: u64 = if n == i64::MIN { 9223372036854775808u64 } else { (-n) as u64 };
        let digits = decimal_string(m);
        let w = if width >= 1 { width - 1 } else { 0 };
        let padded = pad_left_string(digits.as_str(), '0', w);
        let mut r = String::new();
        push_char(&mut r, '-');
        r.append(padded.as_str());
        proof {
            assert(r@ =~= zero_padded(n as int, width as nat));
        }
        r
    } else {
        let digits = decimal_string(n as u64);
        pad_left_string(digits.as_str(), '0', width)
    }
}

/// The elements of `list` joined with `sep` (`[String]::join`).
pub fn join(list: &Vec<String>, sep: &str) -> (r: String)
    ensures
        r@ == joined(list.deep_view(), sep@),
{
    let mut r = String::new();
    let ghost dv = list.deep_view();
    let mut i: usize = 0;
    while i < list.len()
        invariant
            i <= list.len(),
            dv == list.deep_view(),
            dv.len() == list.len(),
            r@ == joined(dv.subrange(0, i as int), sep@),
        decreases list.len() - i,
    {
        proof {
            assert(dv[i as int] == list[i as int]@);
        }
        if i > 0 {
            r.append(sep);
        }
        r.append(list[i].as_str());
        proof {
            let pre = dv.subrange(0, i as int);
            let next = dv.subrange(0, i + 1);
            assert(next.drop_last() =~= pre);
            assert(next.last() == list[i as int]@);
            if i == 0 {
                assert(next.len() == 1);
                assert(next[0] == list[0]@);
                assert(pre =~= Seq::<Seq<char>>::empty());
            }
        }
        i += 1;
    }
    proof {
        assert(dv.subrange(0, list.len() as int) =~= dv);
    }
    r
}

/// Whether `pat` occurs in `text` at position `i`.
pub fn occurs_at_exec(text: &Vec<char>, pat: &Vec<char>, i: usize) -> (b: bool)
    requires
        i <= text@.len(),
    ensures
        b == occurs_at(text@, pat@, i as int),
{
    if pat.len() > text.len() - i {
        return false;
    }
    let tl = text.len();
    let mut j: usize = 0;
    while j < pat.len()
        invariant
            tl == text@.len(),
            i + pat@.len() <= text@.len(),
            j <= pat@.len(),
            forall|k: int| 0 <= k < j ==> text@[i + k] == pat@[k],
        decreases pat.len() - j,
    {
        assert(i + j < text@.len());
        if text[i + j] != pat[j] {
            proof {
                assert(text@.subrange(i as int, i + pat@.len())[j as int] != pat@[j as int]);
            }
            return false;
        }
        j += 1;
    }
    proof {
        assert(text@.subrange(i as int, i + pat@.len()) =~= pat@);
    }
    true
}

/// `text` with every non-overlapping occurrence of `pat` replaced by `rep`
/// (`str::replace`, for a non-empty pattern).
pub fn replace_all(text: &str, pat: &str, rep: &str) -> (r: String)
    requires
        pat@.len() > 0,
    ensures
        r@ == replaced(text@, pat@, rep@),
{
    let t = chars_of(text);
    let p = chars_of(pat);
    let n = t.len();
    let m = p.len();
    let mut out = String::new();
    let mut i: usize = 0;
    while i < n
        invariant
            t@ == text@,
            p@ == pat@,
            n == t@.len(),
            m == p@.len(),
            m > 0,
            i <= n,
            out@ + replaced_from(t@, p@, rep@, i as nat) == replaced(t@, p@, rep@),
        decreases n - i,
    {
        if m > n - i {
            let ghost before = out@;
            push_chars(&mut out, &t, i, n);
            proof {
                assert(replaced_from(t@, p@, rep@, i as nat) == t@.subrange(i as int, n as int));
                assert(replaced_from(t@, p@, rep@, n as nat) =~= Seq::<char>::empty());
                assert(out@ + replaced_from(t@, p@, rep@, n as nat) =~= before + t@.subrange(i as int, n as int));
            }
            i = n;
        } else if occurs_at_exec(&t, &p, i) {
            let ghost before = out@;
            out.append(rep);
            proof {
                assert(before + replaced_from(t@, p@, rep@, i as nat)
                    =~= out@ + replaced_from(t@, p@, rep@, (i + m) as nat));
            }
            i = i + m;
        } else {
            let ghost before = out@;
            push_char(&mut out, t[i]);
            proof {
                assert(before + replaced_from(t@, p@, rep@, i as nat)
                    =~= out@ + replaced_from(t@, p@, rep@, (i + 1) as nat));
            }
            i = i + 1;
        }
    }
    proof {
        assert(replaced_from(t@, p@, rep@, n as nat) =~= Seq::<char>::empty());
        assert(out@ =~= replaced(t@, p@, rep@));
    }
    out
}

/// Whether `text` ends with `suffix`.
pub fn ends_with(text: &str, suffix: &str) -> (b: bool)
    ensures
        b == has_suffix(text@, suffix@),
{
    let t = chars_of(text);
    let s = chars_of(suffix);
    if s.len() > t.len() {
        return false;
    }
    let start = t.len() - s.len();
    let r = occurs_at_exec(&t, &s, start);
    proof {
        if r {
            assert(text@.subrange(text@.len() - suffix@.len(), text@.len() as int)
                == t@.subrange(start as int, start + s@.len()));
        } else {
            assert(text@.subrange(text@.len() - suffix@.len(), text@.len() as int)
                == t@.subrange(start as int, start + s@.len()));
        }
    }
    r
}

/// The text after `prefix`, when `text` starts with it (`str::strip_prefix`).
pub fn strip_prefix(text: &str, prefix: &str) -> (r: Option<String>)
    ensures
        match r {
            Some(rest) => has_prefix(text@, prefix@) && rest@ == text@.subrange(
                prefix@.len() as int,
                text@.len() as int,
            ),
            None => !has_prefix(text@, prefix@),
        },
{
    let t = chars_of(text);
    let p = chars_of(prefix);
    if p.len() > t.len() {
        return None;
    }
    if occurs_at_exec(&t, &p, 0) {
        let mut rest = String::new();
        push_chars(&mut rest, &t, p.len(), t.len());
        proof {
            assert(rest@ =~= text@.subrange(prefix@.len() as int, text@.len() as int));
        }
        Some(rest)
    } else {
        None
    }
}

/// The pieces of `text` between occurrences of `sep` (`str::split` on a character).
pub fn split(text: &str, sep: char) -> (r: Vec<String>)
    ensures
        r.deep_view() == split_on(text@, sep),
{
    let t = chars_of(text);
    let n = t.len();
    let mut pieces: Vec<String> = Vec::new();
    let mut cur = String::new();
    let mut i: usize = 0;
    proof {
        lemma_split_nonempty(t@, sep, 0);
        let rest = split_from(t@, sep, 0);
        assert(cur@ + rest[0] =~= rest[0]);
        assert(pieces.deep_view() + rest.update(0, cur@ + rest[0]) =~= split_on(t@, sep));
    }
    while i < n
        invariant
            t@ == text@,
            n == t@.len(),
            i <= n,
            ({
                let rest = split_from(t@, sep, i as nat);
                split_on(t@, sep) == pieces.deep_view() + rest.update(0, cur@ + rest[0])
            }),
        decreases n - i,
    {
        proof {
            lemma_split_nonempty(t@, sep, i as nat);
            lemma_split_nonempty(t@, sep, (i + 1) as nat);
        }
        let ghost pv = pieces.deep_view();
        let ghost cv = cur@;
        if t[i] == sep {
            let done = cur;
            pieces.push(done);
            cur = String::new();
            proof {
                let rest = split_from(t@, sep, i as nat);
                let rest1 = split_from(t@, sep, (i + 1) as nat);
                assert(rest == seq![Seq::<char>::empty()] + rest1);
                assert(pieces.deep_view() =~= pv.push(cv));
                assert(pv + rest.update(0, cv + rest[0])
                    =~= pieces.deep_view() + rest1.update(0, cur@ + rest1[0]));
            }
        } else {
            push_char(&mut cur, t[i]);
            proof {
                let rest = split_from(t@, sep, i as nat);
                let rest1 = split_from(t@, sep, (i + 1) as nat);
                assert(rest == rest1.update(0, seq![t@[i as int]] + rest1[0]));
                assert(pieces.deep_view() == pv);
                assert(cv + (seq![t@[i as int]] + rest1[0]) =~= cur@ + rest1[0]);
                assert(rest.update(0, cv + rest[0]) =~= rest1.update(0, cur@ + rest1[0]));
            }
        }
        i += 1;
    }
    let ghost pv = pieces.deep_view();
    let ghost cv = cur@;
    pieces.push(cur);
    proof {
        let rest = split_from(t@, sep, n as nat);
        assert(rest == seq![Seq::<char>::empty()]);
        assert(pieces.deep_view() =~= pv.push(cv));
        assert(pv + rest.update(0, cv + rest[0]) =~= pieces.deep_view());
    }
    pieces
}

/// A split always yields at least one piece.
pub proof fn lemma_split_nonempty(text: Seq<char>, sep: char, start: nat)
    ensures
        split_from(text, sep, start).len() >= 1,
    decreases text.len() - start,
{
    if start < text.len() {
        lemma_split_nonempty(text, sep, start + 1);
    }
}

/// Replacing a pattern that does not occur leaves the text unchanged.
pub proof fn lemma_replace_absent(text: Seq<char>, pat: Seq<char>, rep: Seq<char>, i: nat)
    requires
        pat.len() > 0,
        i <= text.len(),
        forall|j: int| i <= j ==> !occurs_at(text, pat, j),
    ensures
        replaced_from(text, pat, rep, i) == text.subrange(i as int, text.len() as int),
    decreases text.len() - i,
{
    if i + pat.len() > text.len() {
    } else {
        assert(!occurs_at(text, pat, i as int));
        lemma_replace_absent(text, pat, rep, i + 1);
        assert(seq![text[i as int]] + text.subrange((i + 1) as int, text.len() as int)
            =~= text.subrange(i as int, text.len() as int));
    }
}

} // verus!
