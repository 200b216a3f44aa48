//! Character-level helpers: whitespace, trimming, splitting text into lines,
//! and moving between `String` and `Vec<char>`.

use vstd::prelude::*;
use vstd::std_specs::iter::IteratorSpec;

verus! {

broadcast use vstd::string::group_string_axioms;

/// The Unicode `White_Space` property, which `char::is_whitespace` reports.
pub open spec fn is_white_space(c: char) -> bool {
    let v = c as u32;
    (0x09 <= v && v <= 0x0d) || v == 0x20 || v == 0x85 || v == 0xa0 || v == 0x1680
        || (0x2000 <= v && v <= 0x200a) || v == 0x2028 || v == 0x2029 || v == 0x202f
        || v == 0x205f || v == 0x3000
}

/// `c` is whitespace in the sense of `char::is_whitespace`.
pub fn is_whitespace_char(c: char) -> (r: bool)
    ensures
        r == is_white_space(c),
{
    let v = c as u32;
    (0x09 <= v && v <= 0x0d) || v == 0x20 || v == 0x85 || v == 0xa0 || v == 0x1680 || (0x2000
        <= v && v <= 0x200a) || v == 0x2028 || v == 0x2029 || v == 0x202f || v == 0x205f || v
        == 0x3000
}

/// `s` without its leading whitespace.
pub open spec fn trim_start(s: Seq<char>) -> Seq<char>
    decreases s.len(),
{
    if s.len() > 0 && is_white_space(s[0]) {
        trim_start(s.drop_first())
    } else {
        s
    }
}

/// `s` without its trailing whitespace.
pub open spec fn trim_end(s: Seq<char>) -> Seq<char>
    decreases s.len(),
{
    if s.len() > 0 && is_white_space(s.last()) {
        trim_end(s.drop_last())
    } else {
        s
    }
}

/// `s` without leading and trailing whitespace, as `str::trim` gives it.
pub open spec fn trim(s: Seq<char>) -> Seq<char> {
    trim_end(trim_start(s))
}

/// Appends the trimmed `line` to `done` unless nothing is left of it.
pub open spec fn keep_line(done: Seq<Seq<char>>, line: Seq<char>) -> Seq<Seq<char>> {
    if trim(line).len() > 0 {
        done.push(trim(line))
    } else {
        done
    }
}

/// Reading `s` from the start: the lines kept so far (trimmed, non-empty)
/// and the characters of the line still open.
pub open spec fn scan_lines(s: Seq<char>) -> (Seq<Seq<char>>, Seq<char>)
    decreases s.len(),
{
    if s.len() == 0 {
        (Seq::empty(), Seq::empty())
    } else {
        let (done, open) = scan_lines(s.drop_last());
        if s.last() == '\n' {
            (keep_line(done, open), Seq::empty())
        } else {
            (done, open.push(s.last()))
        }
    }
}

/// The lines of `s`, split at `'\n'`, each trimmed, the empty ones left out,
/// in the order in which they stand.
pub open spec fn text_lines(s: Seq<char>) -> Seq<Seq<char>> {
    keep_line(scan_lines(s).0, scan_lines(s).1)
}

/// How many `'\n'` characters `s` holds.
pub open spec fn newline_count(s: Seq<char>) -> nat
    decreases s.len(),
{
    if s.len() == 0 {
        0
    } else {
        newline_count(s.drop_last()) + if s.last() == '\n' {
            1nat
        } else {
            0nat
        }
    }
}

/// How many lines reading `s` gives, blank ones included: each `'\n'` ends
/// one, and text after the last `'\n'` makes one more.
pub open spec fn lines_read(s: Seq<char>) -> nat {
    newline_count(s) + if s.len() > 0 && s.last() != '\n' {
        1nat
    } else {
        0nat
    }
}

/// Relies on `String: FromIterator<char>`: the string holds exactly the
/// characters given, in order.
#[verifier::external_body]
pub(crate) fn string_from_chars(cs: &[char]) -> (r: String)
    ensures
        r@ == cs@,
{
    cs.iter().collect()
}

/// The characters of `s`, in order.
pub fn chars_of(s: &str) -> (r: Vec<char>)
    ensures
        r@ == s@,
{
    let mut it = s.chars();
    let mut out: Vec<char> = Vec::new();
    loop
        invariant
            it.obeys_prophetic_iter_laws(),
            out@ + it.remaining() == s@,
            it.decrease() is Some,
        ensures
            out@ == s@,
        decreases it.decrease()->0,
    {
        let ghost before = it.remaining();
        match it.next() {
            Some(c) => {
                assert(out@.push(c) + it.remaining() =~= out@ + before);
                out.push(c);
            },
            None => {
                assert(out@ =~= out@ + before);
                break ;
            },
        }
    }
    out
}

/// The trimmed characters of `s[lo..hi]`.
pub fn trim_range(s: &Vec<char>, lo: usize, hi: usize) -> (r: Vec<char>)
    requires
        lo <= hi <= s@.len(),
    ensures
        r@ == trim(s@.subrange(lo as int, hi as int)),
{
    let mut a = lo;
    while a < hi && is_whitespace_char(s[a])
        invariant
            lo <= a <= hi <= s@.len(),
            trim_start(s@.subrange(lo as int, hi as int)) == trim_start(
                s@.subrange(a as int, hi as int),
            ),
        decreases hi - a,
    {
        assert(s@.subrange(a as int, hi as int).drop_first() =~= s@.subrange(
            a as int + 1,
            hi as int,
        ));
        a += 1;
    }
    let ghost mid = s@.subrange(a as int, hi as int);
    assert(trim_start(mid) == mid) by {
        if a < hi {
            assert(mid[0] == s@[a as int]);
        }
    }
    let mut b = hi;
    while b > a && is_whitespace_char(s[b - 1])
        invariant
            a <= b <= hi <= s@.len(),
            trim_end(mid) == trim_end(s@.subrange(a as int, b as int)),
        decreases b - a,
    {
        assert(s@.subrange(a as int, b as int).drop_last() =~= s@.subrange(
            a as int,
            b as int - 1,
        ));
        b -= 1;
    }
    assert(trim_end(s@.subrange(a as int, b as int)) == s@.subrange(a as int, b as int)) by {
        if b > a {
            assert(s@.subrange(a as int, b as int).last() == s@[b - 1]);
        }
    }
    let mut out: Vec<char> = Vec::new();
    let mut k = a;
    while k < b
        invariant
            a <= k <= b <= s@.len(),
            out@ == s@.subrange(a as int, k as int),
        decreases b - k,
    {
        out.push(s[k]);
        assert(out@ =~= s@.subrange(a as int, k as int + 1));
        k += 1;
    }
    out
}

/// The number of bytes that `c` takes in UTF-8.
pub open spec fn utf8_width(c: char) -> nat {
    if (c as u32) < 0x80 {
        1
    } else if (c as u32) < 0x800 {
        2
    } else if (c as u32) < 0x10000 {
        3
    } else {
        4
    }
}

/// The number of bytes that `c` takes in UTF-8.
pub fn char_utf8_width(c: char) -> (r: usize)
    ensures
        r == utf8_width(c),
{
    let v = c as u32;
    if v < 0x80 {
        1
    } else if v < 0x800 {
        2
    } else if v < 0x10000 {
        3
    } else {
        4
    }
}

/// Appends the characters of `s` to `out`.
pub fn push_str(out: &mut Vec<char>, s: &str)
    ensures
        final(out)@ == old(out)@ + s@,
{
    let cs = chars_of(s);
    let mut i: usize = 0;
    while i < cs.len()
        invariant
            i <= cs@.len(),
            cs@ == s@,
            out@ == old(out)@ + cs@.take(i as int),
        decreases cs.len() - i,
    {
        out.push(cs[i]);
        assert(cs@.take(i as int + 1) =~= cs@.take(i as int).push(cs@[i as int]));
        assert(out@ =~= old(out)@ + cs@.take(i as int + 1));
        i += 1;
    }
    assert(cs@.take(cs@.len() as int) =~= cs@);
}

/// The decimal digit for `d` < 10.
pub open spec fn digit_char(d: nat) -> char {
    (('0' as u32) + d) as char
}

/// The decimal notation of `n`, without leading zeros.
pub open spec fn decimal(n: nat) -> Seq<char>
    decreases n,
{
    if n < 10 {
        seq![digit_char(n)]
    } else {
        decimal(n / 10).push(digit_char(n % 10))
    }
}

/// The decimal digit for `d`.
fn digit(d: u64) -> (c: char)
    requires
        d < 10,
    ensures
        c == digit_char(d as nat),
{
    match d {
        0 => '0',
        1 => '1',
        2 => '2',
        3 => '3',
        4 => '4',
        5 => '5',
        6 => '6',
        7 => '7',
        8 => '8',
        _ => '9',
    }
}

/// Appends the decimal notation of `n` to `out`.
pub fn push_decimal(out: &mut Vec<char>, n: u64)
    ensures
        final(out)@ == old(out)@ + decimal(n as nat),
    decreases n,
{
    if n >= 10 {
        push_decimal(out, n / 10);
    }
    let c = digit(n % 10);
    out.push(c);
    assert(out@ =~= old(out)@ + decimal(n as nat));
}

/// `p` occurs in `s` at position `i`.
pub open spec fn occurs_at(s: Seq<char>, p: Seq<char>, i: int) -> bool {
    0 <= i && i + p.len() <= s.len() && s.subrange(i, i + p.len()) == p
}

/// `p` occurs somewhere in `s`, as `str::contains` finds it.
pub open spec fn contains_seq(s: Seq<char>, p: Seq<char>) -> bool {
    exists|i: int| occurs_at(s, p, i)
}

/// Whether `p` occurs in `s`.
pub fn str_contains(s: &str, p: &str) -> (r: bool)
    ensures
        r == contains_seq(s@, p@),
{
    let cs = chars_of(s);
    let ps = chars_of(p);
    if ps.len() > cs.len() {
        assert forall|i: int| !occurs_at(s@, p@, i) by {}
        return false;
    }
    let mut i: usize = 0;
    let last = cs.len() - ps.len();
    while i <= last
        invariant
            last == cs@.len() - ps@.len(),
            cs@ == s@,
            ps@ == p@,
            ps@.len() <= cs@.len(),
            i <= last + 1,
            forall|k: int| 0 <= k < i ==> !occurs_at(s@, p@, k),
        decreases cs.len() - i,
    {
        let mut j: usize = 0;
        while j < ps.len()
            invariant
                i + ps@.len() <= cs@.len(),
                cs@.len() <= usize::MAX,
                i <= last,
                last == cs@.len() - ps@.len(),
                j <= ps@.len(),
                forall|k: int| 0 <= k < j ==> cs@[i + k] == ps@[k],
            ensures
                j <= ps@.len(),
                forall|k: int| 0 <= k < j ==> cs@[i + k] == ps@[k],
                j < ps@.len() ==> cs@[i + j] != ps@[j as int],
            decreases ps.len() - j,
        {
            if cs[i + j] != ps[j] {
                break;
            }
            j += 1;
        }
        if j == ps.len() {
            assert(cs@.subrange(i as int, i + ps@.len()) =~= ps@);
            assert(occurs_at(s@, p@, i as int));
            return true;
        }
        assert(cs@.subrange(i as int, i + ps@.len())[j as int] != ps@[j as int]);
        assert(!occurs_at(s@, p@, i as int));
        i += 1;
    }
    assert forall|k: int| !occurs_at(s@, p@, k) by {
        if 0 <= k && k < i {
        }
    }
    false
}

/// Whether `a` and `b` hold the same characters.
pub fn str_eq(a: &str, b: &str) -> (r: bool)
    ensures
        r == (a@ == b@),
{
    let x = chars_of(a);
    let y = chars_of(b);
    if x.len() != y.len() {
        return false;
    }
    let mut i: usize = 0;
    while i < x.len()
        invariant
            x@ == a@,
            y@ == b@,
            x@.len() == y@.len(),
            i <= x@.len(),
            forall|k: int| 0 <= k < i ==> x@[k] == y@[k],
        decreases x.len() - i,
    {
        if x[i] != y[i] {
            assert(x@[i as int] != y@[i as int]);
            return false;
        }
        i += 1;
    }
    assert(x@ =~= y@);
    true
}

/// The value of the decimal digits `s`.
pub open spec fn digits_value(s: Seq<char>) -> nat
    decreases s.len(),
{
    if s.len() == 0 {
        0
    } else {
        digits_value(s.drop_last()) * 10 + ((s.last() as u32) - ('0' as u32)) as nat
    }
}

/// Every character of `s` is an ASCII digit.
pub open spec fn all_digits(s: Seq<char>) -> bool {
    forall|i: int| 0 <= i < s.len() ==> '0' <= #[trigger] s[i] && s[i] <= '9'
}

/// What `str::parse::<usize>` accepts: an optional `+` and at least one
/// digit, of a value that fits.
pub open spec fn parsed_usize(s: Seq<char>) -> Option<nat> {
    let d = if s.len() > 0 && s[0] == '+' {
        s.drop_first()
    } else {
        s
    };
    if d.len() > 0 && all_digits(d) && digits_value(d) <= usize::MAX {
        Some(digits_value(d))
    } else {
        None
    }
}

/// Reads an unsigned decimal number as `str::parse::<usize>` does.
pub fn parse_usize(s: &str) -> (r: Option<usize>)
    ensures
        r matches Some(v) ==> parsed_usize(s@) == Some(v as nat),
        r is None ==> parsed_usize(s@) is None,
{
    let cs = chars_of(s);
    let start: usize = if cs.len() > 0 && cs[0] == '+' {
        1
    } else {
        0
    };
    let ghost d = cs@.skip(start as int);
    assert(start == 1 ==> d =~= cs@.drop_first());
    assert(start == 0 ==> d =~= cs@);
    if start == cs.len() {
        return None;
    }
    let mut v: u128 = 0;
    let mut i = start;
    while i < cs.len()
        invariant
            start <= i <= cs@.len(),
            cs@ == s@,
            d == cs@.skip(start as int),
            d == (if cs@.len() > 0 && cs@[0] == '+' {
                cs@.drop_first()
            } else {
                cs@
            }),
            all_digits(cs@.subrange(start as int, i as int)),
            v == digits_value(cs@.subrange(start as int, i as int)),
            v <= usize::MAX,
        decreases cs.len() - i,
    {
        let c = cs[i];
        assert(cs@.subrange(start as int, i as int + 1).drop_last() =~= cs@.subrange(
            start as int,
            i as int,
        ));
        if c < '0' || c > '9' {
            assert(d[i - start] == c);
            assert(!('0' <= d[i - start] && d[i - start] <= '9'));
            return None;
        }
        let nv = v * 10 + ((c as u32) - 48) as u128;
        if nv > usize::MAX as u128 {
            proof {
                let t = cs@.subrange(start as int, i as int + 1);
                assert(t.last() == c);
                assert(all_digits(t)) by {
                    assert forall|k: int| 0 <= k < t.len() implies '0' <= #[trigger] t[k] && t[k]
                        <= '9' by {
                        if k < t.len() - 1 {
                            assert(t[k] == cs@.subrange(start as int, i as int)[k]);
                        }
                    }
                }
                assert(digits_value(t) == nv);
                lemma_digits_value_grows(d, (i - start + 1) as int);
                assert(d.take(i - start + 1) =~= cs@.subrange(start as int, i as int + 1));
            }
            assert(d.take(i - start + 1) =~= cs@.subrange(start as int, i as int + 1));
            return None;
        }
        v = nv;
        proof {
            let t = cs@.subrange(start as int, i as int + 1);
            assert forall|k: int| 0 <= k < t.len() implies '0' <= #[trigger] t[k] && t[k]
                <= '9' by {
                if k < t.len() - 1 {
                    assert(t[k] == cs@.subrange(start as int, i as int)[k]);
                }
            }
        }
        i += 1;
    }
    assert(cs@.subrange(start as int, i as int) =~= d);
    Some(v as usize)
}

/// The value of digits never falls below that of a prefix of them.
proof fn lemma_digits_value_grows(d: Seq<char>, k: int)
    requires
        0 <= k <= d.len(),
        all_digits(d.take(k)),
    ensures
        all_digits(d) ==> digits_value(d) >= digits_value(d.take(k)),
    decreases d.len(),
{
    if d.len() > k {
        assert(d.drop_last().take(k) =~= d.take(k));
        lemma_digits_value_grows(d.drop_last(), k);
        if all_digits(d) {
            assert(all_digits(d.drop_last()));
        }
    } else {
        assert(d.take(k) =~= d);
    }
}

/// A line as a merged output holds it: not empty, no `'\n'`, and no
/// whitespace at either end.
pub open spec fn is_clean_line(l: Seq<char>) -> bool {
    &&& l.len() > 0
    &&& !is_white_space(l[0])
    &&& !is_white_space(l.last())
    &&& !l.contains('\n')
}

/// `trim_start(s)` is a suffix of `s` that starts with no whitespace.
proof fn lemma_trim_start_suffix(s: Seq<char>)
    ensures
        trim_start(s).len() <= s.len(),
        trim_start(s) == s.subrange(s.len() - trim_start(s).len(), s.len() as int),
        trim_start(s).len() > 0 ==> !is_white_space(trim_start(s)[0]),
    decreases s.len(),
{
    if s.len() > 0 && is_white_space(s[0]) {
        lemma_trim_start_suffix(s.drop_first());
        assert(s.drop_first().subrange(
            s.drop_first().len() - trim_start(s).len(),
            s.drop_first().len() as int,
        ) =~= s.subrange(s.len() - trim_start(s).len(), s.len() as int));
    } else {
        assert(s.subrange(0, s.len() as int) =~= s);
    }
}

/// `trim_end(s)` is a prefix of `s` that ends with no whitespace.
proof fn lemma_trim_end_prefix(s: Seq<char>)
    ensures
        trim_end(s).len() <= s.len(),
        trim_end(s) == s.subrange(0, trim_end(s).len() as int),
        trim_end(s).len() > 0 ==> !is_white_space(trim_end(s).last()),
    decreases s.len(),
{
    if s.len() > 0 && is_white_space(s.last()) {
        lemma_trim_end_prefix(s.drop_last());
        assert(s.drop_last().subrange(0, trim_end(s).len() as int) =~= s.subrange(
            0,
            trim_end(s).len() as int,
        ));
    } else {
        assert(s.subrange(0, s.len() as int) =~= s);
    }
}

/// Trimming a piece of text without `'\n'` leaves a clean line, or nothing.
pub proof fn lemma_trim_is_clean(s: Seq<char>)
    requires
        !s.contains('\n'),
        trim(s).len() > 0,
    ensures
        is_clean_line(trim(s)),
{
    let t = trim_start(s);
    lemma_trim_start_suffix(s);
    lemma_trim_end_prefix(t);
    let u = trim_end(t);
    assert(u[0] == t[0]);
    if u.contains('\n') {
        let i = choose|i: int| 0 <= i < u.len() && u[i] == '\n';
        assert(t[i] == '\n');
        assert(s[s.len() - t.len() + i] == '\n');
    }
}

/// A clean line is its own trim.
pub proof fn lemma_clean_is_trimmed(l: Seq<char>)
    requires
        is_clean_line(l),
    ensures
        trim(l) == l,
{
    assert(trim_start(l) == l);
    assert(trim_end(l) == l);
}

/// Reading text: the open line holds no `'\n'` and every kept line is clean.
pub proof fn lemma_scan_clean(s: Seq<char>)
    ensures
        !scan_lines(s).1.contains('\n'),
        forall|i: int|
            0 <= i < scan_lines(s).0.len() ==> is_clean_line(#[trigger] scan_lines(s).0[i]),
    decreases s.len(),
{
    if s.len() > 0 {
        lemma_scan_clean(s.drop_last());
        let (done, open) = scan_lines(s.drop_last());
        if s.last() == '\n' {
            if trim(open).len() > 0 {
                lemma_trim_is_clean(open);
            }
            assert forall|i: int| 0 <= i < scan_lines(s).0.len() implies is_clean_line(
                #[trigger] scan_lines(s).0[i],
            ) by {
                if i < done.len() {
                    assert(scan_lines(s).0[i] == done[i]);
                }
            }
        } else {
            assert forall|i: int| 0 <= i < open.push(s.last()).len() implies open.push(
                s.last(),
            )[i] != '\n' by {
                if i < open.len() {
                    assert(open[i] != '\n');
                }
            }
        }
    }
}

/// Every line that `text_lines` keeps is clean.
pub proof fn lemma_text_lines_clean(s: Seq<char>)
    ensures
        forall|i: int| 0 <= i < text_lines(s).len() ==> is_clean_line(#[trigger] text_lines(s)[i]),
{
    lemma_scan_clean(s);
    let (done, open) = scan_lines(s);
    if trim(open).len() > 0 {
        lemma_trim_is_clean(open);
    }
    assert forall|i: int| 0 <= i < text_lines(s).len() implies is_clean_line(
        #[trigger] text_lines(s)[i],
    ) by {
        if i < done.len() {
            assert(text_lines(s)[i] == done[i]);
        }
    }
}

/// Reading on past text that ended a line: characters without `'\n'`
/// only extend the open line.
pub proof fn lemma_scan_extend(p: Seq<char>, q: Seq<char>)
    requires
        scan_lines(p).1.len() == 0,
        !q.contains('\n'),
    ensures
        scan_lines(p + q) == (scan_lines(p).0, q),
    decreases q.len(),
{
    if q.len() == 0 {
        assert(p + q =~= p);
        assert(scan_lines(p).1 =~= q);
    } else {
        assert(!q.drop_last().contains('\n')) by {
            if q.drop_last().contains('\n') {
                let i = choose|i: int| 0 <= i < q.drop_last().len() && q.drop_last()[i] == '\n';
                assert(q[i] == '\n');
            }
        }
        lemma_scan_extend(p, q.drop_last());
        assert((p + q).drop_last() =~= p + q.drop_last());
        assert((p + q).last() == q.last());
        assert(q.last() != '\n');
        assert(q.drop_last().push(q.last()) =~= q);
    }
}

} // verus!
