//! Text helpers: every function here says exactly which characters it yields.
use vstd::prelude::*;

verus! {

/// `String::push` of std: the character is appended at the end.
pub assume_specification[ String::push ](s: &mut String, c: char)
    ensures
        final(s)@ == old(s)@.push(c),
;

/// The characters of `s`, in order.
pub fn chars_of(s: &str) -> (r: Vec<char>)
    ensures
        r@ == s@,
{
    let mut v: Vec<char> = Vec::new();
    for c in it: s.chars()
        invariant
            v@ == it.seq().take(it.index() as int),
            it.seq() == s@,
    {
        v.push(c);
    }
    v
}

/// The text made of the characters `v[from..to]`.
pub fn text_between(v: &Vec<char>, from: usize, to: usize) -> (r: String)
    requires
        from <= to <= v@.len(),
    ensures
        r@ == v@.subrange(from as int, to as int),
{
    let mut s = String::new();
    let mut i: usize = from;
    while i < to
        invariant
            from <= i <= to <= v@.len(),
            s@ == v@.subrange(from as int, i as int),
        decreases to - i,
    {
        s.push(v[i]);
        proof {
            assert(v@.subrange(from as int, i + 1) =~= v@.subrange(from as int, i as int).push(
                v@[i as int],
            ));
        }
        i = i + 1;
    }
    s
}

/// A copy of `s`.
pub fn copy_text(s: &str) -> (r: String)
    ensures
        r@ == s@,
{
    s.to_owned()
}

/// Whether two texts are the same.
pub fn same_text(a: &str, b: &str) -> (r: bool)
    ensures
        r == (a@ == b@),
{
    let x = chars_of(a);
    let y = chars_of(b);
    if x.len() != y.len() {
        return false;
    }
    let mut i: usize = 0;
    while i < x.len()
        invariant
            i <= x@.len(),
            x@.len() == y@.len(),
            x@ == a@,
            y@ == b@,
            forall|j: int| 0 <= j < i ==> x@[j] == y@[j],
        decreases x@.len() - i,
    {
        if x[i] != y[i] {
            return false;
        }
        i = i + 1;
    }
    proof {
        assert(x@ =~= y@);
    }
    true
}

// --- Numbers ---

/// The decimal digit `d` as a character.
pub open spec fn digit(d: int) -> char {
    if d == 0 { '0' } else if d == 1 { '1' } else if d == 2 { '2' } else if d == 3 { '3' }
    else if d == 4 { '4' } else if d == 5 { '5' } else if d == 6 { '6' } else if d == 7 { '7' }
    else if d == 8 { '8' } else { '9' }
}

/// The decimal notation of `n`, without leading zeros.
pub open spec fn dec(n: nat) -> Seq<char>
    decreases n,
{
    if n < 10 {
        seq![digit(n as int)]
    } else {
        dec(n / 10).push(digit((n % 10) as int))
    }
}

/// The decimal notation of `n`, with a minus sign where it is negative.
pub open spec fn signed_dec(n: int) -> Seq<char> {
    if n < 0 {
        seq!['-'] + dec((-n) as nat)
    } else {
        dec(n as nat)
    }
}

/// `n` in decimal, in exactly `width` digits (the lowest ones).
pub open spec fn fixed_dec(n: int, width: nat) -> Seq<char>
    decreases width,
{
    if width == 0 {
        Seq::empty()
    } else {
        fixed_dec(n / 10, (width - 1) as nat).push(digit(n % 10))
    }
}

fn digit_char(d: u64) -> (c: char)
    requires
        d < 10,
    ensures
        c == digit(d as int),
{
    if d == 0 { '0' } else if d == 1 { '1' } else if d == 2 { '2' } else if d == 3 { '3' }
    else if d == 4 { '4' } else if d == 5 { '5' } else if d == 6 { '6' } else if d == 7 { '7' }
    else if d == 8 { '8' } else { '9' }
}

/// Append `n` in decimal.
pub fn push_dec(out: &mut String, n: u64)
    ensures
        final(out)@ == old(out)@ + dec(n as nat),
    decreases n,
{
    if n >= 10 {
        push_dec(out, n / 10);
    }
    out.push(digit_char(n % 10));
    proof {
        if n < 10 {
            assert(out@ =~= old(out)@ + dec(n as nat));
        } else {
            assert(out@ =~= old(out)@ + dec(n as nat));
        }
    }
}

/// Append `n` in decimal, signed.
pub fn push_signed(out: &mut String, n: i64)
    ensures
        final(out)@ == old(out)@ + signed_dec(n as int),
{
    if n < 0 {
        out.push('-');
        let m: u64 = if n == i64::MIN { 9_223_372_036_854_775_808 } else { (-n) as u64 };
        push_dec(out, m);
        proof {
            assert(out@ =~= old(out)@ + signed_dec(n as int));
        }
    } else {
        push_dec(out, n as u64);
    }
}

/// Append the lowest `width` decimal digits of `n`.
pub fn push_fixed(out: &mut String, n: u64, width: usize)
    ensures
        final(out)@ == old(out)@ + fixed_dec(n as int, width as nat),
    decreases width,
{
    if width > 0 {
        push_fixed(out, n / 10, width - 1);
        out.push(digit_char(n % 10));
    }
    proof {
        assert(out@ =~= old(out)@ + fixed_dec(n as int, width as nat));
    }
}

// --- Searching ---

/// `needle` stands in `hay` at position `i`.
pub open spec fn stands_at(hay: Seq<char>, needle: Seq<char>, i: int) -> bool {
    0 <= i && i + needle.len() <= hay.len() && hay.subrange(i, i + needle.len()) == needle
}

/// `hay` contains `needle`.
pub open spec fn has_infix(hay: Seq<char>, needle: Seq<char>) -> bool {
    exists|i: int| #[trigger] stands_at(hay, needle, i)
}

/// `s` begins with `p`.
pub open spec fn has_prefix(s: Seq<char>, p: Seq<char>) -> bool {
    stands_at(s, p, 0)
}

/// `s` ends with `p`.
pub open spec fn has_suffix(s: Seq<char>, p: Seq<char>) -> bool {
    stands_at(s, p, s.len() - p.len())
}

fn matches_at(hay: &Vec<char>, needle: &Vec<char>, at: usize) -> (r: bool)
    requires
        at + needle@.len() <= hay@.len(),
    ensures
        r == stands_at(hay@, needle@, at as int),
{
    let end: usize = hay.len();
    let mut j: usize = 0;
    while j < needle.len()
        invariant
            j <= needle@.len(),
            end == hay@.len(),
            at + needle@.len() <= end,
            forall|k: int| 0 <= k < j ==> hay@[at + k] == needle@[k],
        decreases needle@.len() - j,
    {
        if hay[at + j] != needle[j] {
            proof {
                assert(hay@.subrange(at as int, at + needle@.len())[j as int] != needle@[j as int]);
            }
            return false;
        }
        j = j + 1;
    }
    proof {
        assert(hay@.subrange(at as int, at + needle@.len()) =~= needle@);
    }
    true
}

/// Whether `hay` contains `needle`.
pub fn contains(hay: &str, needle: &str) -> (r: bool)
    ensures
        r == has_infix(hay@, needle@),
{
    let h = chars_of(hay);
    let n = chars_of(needle);
    if n.len() > h.len() {
        return false;
    }
    let last: usize = h.len() - n.len();
    let mut i: usize = 0;
    while i <= last
        invariant
            h@ == hay@,
            n@ == needle@,
            last == h@.len() - n@.len(),
            i <= last + 1,
            forall|k: int| 0 <= k < i ==> !stands_at(h@, n@, k),
        decreases last + 1 - i,
    {
        if matches_at(&h, &n, i) {
            return true;
        }
        if i == last {
            return false;
        }
        i = i + 1;
    }
    false
}

/// Whether `s` begins with `p`.
pub fn starts_with(s: &str, p: &str) -> (r: bool)
    ensures
        r == has_prefix(s@, p@),
{
    let h = chars_of(s);
    let n = chars_of(p);
    n.len() <= h.len() && matches_at(&h, &n, 0)
}

/// What follows the prefix `p` of `s`, if `s` begins with it.
pub fn strip_prefix(s: &str, p: &str) -> (r: Option<String>)
    ensures
        r is Some <==> has_prefix(s@, p@),
        r matches Some(t) ==> s@ == p@ + t@,
{
    let h = chars_of(s);
    let n = chars_of(p);
    if n.len() <= h.len() && matches_at(&h, &n, 0) {
        let t = text_between(&h, n.len(), h.len());
        proof {
            assert(h@ =~= h@.subrange(0, n@.len() as int) + h@.subrange(
                n@.len() as int,
                h@.len() as int,
            ));
        }
        Some(t)
    } else {
        None
    }
}

/// What precedes the suffix `p` of `s`, if `s` ends with it.
pub fn strip_suffix(s: &str, p: &str) -> (r: Option<String>)
    ensures
        r is Some <==> has_suffix(s@, p@),
        r matches Some(t) ==> s@ == t@ + p@,
{
    let h = chars_of(s);
    let n = chars_of(p);
    if n.len() <= h.len() && matches_at(&h, &n, h.len() - n.len()) {
        let t = text_between(&h, 0, h.len() - n.len());
        proof {
            assert(h@ =~= h@.subrange(0, h@.len() - n@.len()) + h@.subrange(
                h@.len() - n@.len(),
                h@.len() as int,
            ));
        }
        Some(t)
    } else {
        None
    }
}

// --- Rewriting ---

/// A character of a port path in the name of an archive: no slash and no backslash.
pub open spec fn flat_char(c: char) -> char {
    if c == '/' || c == '\\' {
        '_'
    } else {
        c
    }
}

/// A port path in the name of an archive.
pub open spec fn flat(s: Seq<char>) -> Seq<char> {
    s.map_values(|c: char| flat_char(c))
}

/// A port path in the name of an archive: slashes and backslashes become underscores.
pub fn flatten(s: &str) -> (r: String)
    ensures
        r@ == flat(s@),
{
    let v = chars_of(s);
    let mut out = String::new();
    let mut i: usize = 0;
    proof {
        assert(out@ =~= flat(v@.take(0)));
    }
    while i < v.len()
        invariant
            i <= v@.len(),
            out@ == flat(v@.take(i as int)),
        decreases v@.len() - i,
    {
        let c: char = v[i];
        out.push(
            if c == '/' || c == '\\' {
                '_'
            } else {
                c
            },
        );
        i = i + 1;
        proof {
            assert(out@ =~= flat(v@.take(i as int)));
        }
    }
    proof {
        assert(v@.take(v@.len() as int) =~= v@);
    }
    out
}

/// What stands for a character of a port path in a file name. A slash becomes an underscore; an
/// underscore, a backslash and a percent sign become a percent sign and two digits.
pub open spec fn file_code(c: char) -> Seq<char> {
    if c == '/' {
        seq!['_']
    } else if c == '_' {
        seq!['%', '5', 'F']
    } else if c == '\\' {
        seq!['%', '5', 'C']
    } else if c == '%' {
        seq!['%', '2', '5']
    } else {
        seq![c]
    }
}

/// A port path as a file name stem.
pub open spec fn file_safe(s: Seq<char>) -> Seq<char>
    decreases s.len(),
{
    if s.len() == 0 {
        Seq::empty()
    } else {
        file_safe(s.drop_last()) + file_code(s.last())
    }
}

/// A port path as a file name stem.
pub fn sanitize(s: &str) -> (r: String)
    ensures
        r@ == file_safe(s@),
{
    let v = chars_of(s);
    let mut out = String::new();
    let mut i: usize = 0;
    while i < v.len()
        invariant
            i <= v@.len(),
            out@ == file_safe(v@.take(i as int)),
        decreases v@.len() - i,
    {
        let ghost before = out@;
        let c: char = v[i];
        if c == '/' {
            out.push('_');
        } else if c == '_' || c == '\\' || c == '%' {
            out.push('%');
            out.push(
                if c == '%' {
                    '2'
                } else {
                    '5'
                },
            );
            out.push(
                if c == '_' {
                    'F'
                } else if c == '\\' {
                    'C'
                } else {
                    '5'
                },
            );
        } else {
            out.push(c);
        }
        proof {
            assert(v@.take(i + 1).drop_last() =~= v@.take(i as int));
            assert(out@ =~= before + file_code(c));
        }
        i = i + 1;
    }
    proof {
        assert(v@.take(v@.len() as int) =~= v@);
    }
    out
}

/// The code of a path is that of its first character and then that of the others.
proof fn file_safe_first(s: Seq<char>)
    requires
        s.len() > 0,
    ensures
        file_safe(s) == file_code(s[0]) + file_safe(s.skip(1)),
    decreases s.len(),
{
    if s.len() == 1 {
        assert(s.drop_last() =~= Seq::empty());
        assert(s.skip(1) =~= Seq::empty());
        assert(file_safe(s) =~= file_code(s[0]) + file_safe(s.skip(1)));
    } else {
        file_safe_first(s.drop_last());
        assert(s.drop_last().skip(1) =~= s.skip(1).drop_last());
        assert(file_safe(s) =~= file_code(s[0]) + file_safe(s.skip(1)));
    }
}

/// A file name stem holds no separator of paths, so that the file lies in its directory.
pub proof fn law_file_names_flat(s: Seq<char>)
    ensures
        forall|i: int|
            0 <= i < file_safe(s).len() ==> #[trigger] file_safe(s)[i] != '/' && file_safe(s)[i]
                != '\\',
    decreases s.len(),
{
    if s.len() > 0 {
        let front = file_safe(s.drop_last());
        let code = file_code(s.last());
        law_file_names_flat(s.drop_last());
        assert forall|i: int| 0 <= i < file_safe(s).len() implies #[trigger] file_safe(s)[i] != '/'
            && file_safe(s)[i] != '\\' by {
            if i < front.len() {
                assert(file_safe(s)[i] == front[i]);
            } else {
                assert(file_safe(s)[i] == code[i - front.len()]);
            }
        }
    }
}

/// Different port paths have different file name stems.
pub proof fn law_file_names_differ(a: Seq<char>, b: Seq<char>)
    requires
        file_safe(a) == file_safe(b),
    ensures
        a == b,
    decreases a.len(),
{
    let f = file_safe(a);
    if a.len() > 0 {
        file_safe_first(a);
    }
    if b.len() > 0 {
        file_safe_first(b);
    }
    if a.len() == 0 || b.len() == 0 {
        assert(a =~= b);
    } else {
        let x = file_code(a[0]);
        let y = file_code(b[0]);
        assert(f[0] == x[0] && f[0] == y[0]);
        if x.len() == 3 && y.len() == 3 {
            assert(f[1] == x[1] && f[1] == y[1]);
            assert(f[2] == x[2] && f[2] == y[2]);
        }
        assert(a[0] == b[0]);
        let n = x.len() as int;
        assert(f.skip(n) =~= file_safe(a.skip(1)));
        assert(f.skip(n) =~= file_safe(b.skip(1)));
        law_file_names_differ(a.skip(1), b.skip(1));
        assert(a =~= seq![a[0]] + a.skip(1));
        assert(b =~= seq![b[0]] + b.skip(1));
    }
}

/// `s` without its blanks.
pub open spec fn without_blanks(s: Seq<char>) -> Seq<char>
    decreases s.len(),
{
    if s.len() == 0 {
        Seq::empty()
    } else if s.last() == ' ' {
        without_blanks(s.drop_last())
    } else {
        without_blanks(s.drop_last()).push(s.last())
    }
}

/// `s` with its blanks (U+0020) taken out.
pub fn remove_blanks(s: &str) -> (r: String)
    ensures
        r@ == without_blanks(s@),
{
    let v = chars_of(s);
    let mut out = String::new();
    let mut i: usize = 0;
    while i < v.len()
        invariant
            i <= v@.len(),
            out@ == without_blanks(v@.take(i as int)),
        decreases v@.len() - i,
    {
        proof {
            assert(v@.take(i + 1).drop_last() =~= v@.take(i as int));
        }
        if v[i] != ' ' {
            out.push(v[i]);
        }
        i = i + 1;
    }
    proof {
        assert(v@.take(v@.len() as int) =~= v@);
    }
    out
}

/// `s` with every quotation mark doubled.
pub open spec fn quotes_doubled(s: Seq<char>) -> Seq<char>
    decreases s.len(),
{
    if s.len() == 0 {
        Seq::empty()
    } else if s.last() == '"' {
        quotes_doubled(s.drop_last()).push('"').push('"')
    } else {
        quotes_doubled(s.drop_last()).push(s.last())
    }
}

/// Append `s` with every quotation mark doubled.
pub fn push_quotes_doubled(out: &mut String, s: &str)
    ensures
        final(out)@ == old(out)@ + quotes_doubled(s@),
{
    let v = chars_of(s);
    let mut i: usize = 0;
    proof {
        assert(out@ =~= old(out)@ + quotes_doubled(v@.take(0)));
    }
    while i < v.len()
        invariant
            i <= v@.len(),
            out@ == old(out)@ + quotes_doubled(v@.take(i as int)),
        decreases v@.len() - i,
    {
        proof {
            assert(v@.take(i + 1).drop_last() =~= v@.take(i as int));
        }
        if v[i] == '"' {
            out.push('"');
        }
        out.push(v[i]);
        proof {
            assert(out@ =~= old(out)@ + quotes_doubled(v@.take(i + 1)));
        }
        i = i + 1;
    }
    proof {
        assert(v@.take(v@.len() as int) =~= v@);
    }
}

/// The parts in order, `sep` between each two.
pub open spec fn joined(parts: Seq<Seq<char>>, sep: Seq<char>) -> Seq<char>
    decreases parts.len(),
{
    if parts.len() == 0 {
        Seq::empty()
    } else if parts.len() == 1 {
        parts[0]
    } else {
        joined(parts.drop_last(), sep) + sep + parts.last()
    }
}

/// The texts of a list of strings.
pub open spec fn texts(v: Seq<String>) -> Seq<Seq<char>> {
    v.map_values(|s: String| s@)
}

/// Join the parts with `sep` between each two.
pub fn join(parts: &Vec<String>, sep: &str) -> (r: String)
    ensures
        r@ == joined(texts(parts@), sep@),
{
    let mut out = String::new();
    let mut i: usize = 0;
    while i < parts.len()
        invariant
            i <= parts@.len(),
            out@ == joined(texts(parts@).take(i as int), sep@),
        decreases parts@.len() - i,
    {
        let ghost t = texts(parts@);
        if i > 0 {
            out.append(sep);
        }
        out.append(parts[i].as_str());
        proof {
            assert(t.take(i + 1).drop_last() =~= t.take(i as int));
            assert(t.take(i + 1).last() == parts@[i as int]@);
            assert(out@ =~= joined(t.take(i + 1), sep@));
        }
        i = i + 1;
    }
    proof {
        assert(texts(parts@).take(parts@.len() as int) =~= texts(parts@));
    }
    out
}

/// The strings in reverse order.
pub fn reversed(v: Vec<String>) -> (r: Vec<String>)
    ensures
        texts(r@) == texts(v@).reverse(),
{
    let mut out: Vec<String> = Vec::new();
    let mut i: usize = v.len();
    while i > 0
        invariant
            i <= v@.len(),
            out@.len() == v@.len() - i,
            forall|k: int| 0 <= k < out@.len() ==> (#[trigger] out@[k])@ == v@[v@.len() - 1 - k]@,
        decreases i,
    {
        i = i - 1;
        out.push(copy_text(v[i].as_str()));
    }
    proof {
        assert(texts(out@) =~= texts(v@).reverse());
    }
    out
}

/// `s` without its last character.
pub fn without_last(s: &str) -> (r: String)
    ensures
        r@ == (if s@.len() == 0 {
            s@
        } else {
            s@.drop_last()
        }),
{
    let v = chars_of(s);
    if v.len() == 0 {
        return String::new();
    }
    let r = text_between(&v, 0, v.len() - 1);
    proof {
        assert(r@ =~= s@.drop_last());
    }
    r
}

// --- White space ---

/// The Unicode property White_Space.
pub open spec fn is_white(c: char) -> bool {
    ||| '\u{9}' <= c <= '\u{d}'
    ||| c == '\u{20}'
    ||| c == '\u{85}'
    ||| c == '\u{a0}'
    ||| c == '\u{1680}'
    ||| '\u{2000}' <= c <= '\u{200a}'
    ||| c == '\u{2028}'
    ||| c == '\u{2029}'
    ||| c == '\u{202f}'
    ||| c == '\u{205f}'
    ||| c == '\u{3000}'
}

fn white(c: char) -> (r: bool)
    ensures
        r == is_white(c),
{
    ('\u{9}' <= c && c <= '\u{d}') || c == '\u{20}' || c == '\u{85}' || c == '\u{a0}' || c
        == '\u{1680}' || ('\u{2000}' <= c && c <= '\u{200a}') || c == '\u{2028}' || c == '\u{2029}'
        || c == '\u{202f}' || c == '\u{205f}' || c == '\u{3000}'
}

/// `s` without the white space at its front.
pub open spec fn trimmed_front(s: Seq<char>) -> Seq<char>
    decreases s.len(),
{
    if s.len() > 0 && is_white(s[0]) {
        trimmed_front(s.drop_first())
    } else {
        s
    }
}

/// `s` without the white space at its back.
pub open spec fn trimmed_back(s: Seq<char>) -> Seq<char>
    decreases s.len(),
{
    if s.len() > 0 && is_white(s.last()) {
        trimmed_back(s.drop_last())
    } else {
        s
    }
}

/// `s` without the white space at both ends.
pub open spec fn trimmed(s: Seq<char>) -> Seq<char> {
    trimmed_back(trimmed_front(s))
}

/// `s` without the white space at both ends.
pub fn trim(s: &str) -> (r: String)
    ensures
        r@ == trimmed(s@),
{
    let v = chars_of(s);
    let mut a: usize = 0;
    proof {
        assert(v@.skip(0) =~= v@);
    }
    while a < v.len() && white(v[a])
        invariant
            a <= v@.len(),
            trimmed_front(v@) == trimmed_front(v@.skip(a as int)),
        decreases v@.len() - a,
    {
        proof {
            assert(v@.skip(a as int).drop_first() =~= v@.skip(a + 1));
        }
        a = a + 1;
    }
    let ghost f = v@.skip(a as int);
    proof {
        assert(trimmed_front(v@) == f);
    }
    let mut b: usize = v.len();
    proof {
        assert(v@.subrange(a as int, b as int) =~= f);
    }
    while a < b && white(v[b - 1])
        invariant
            a <= b <= v@.len(),
            trimmed_back(f) == trimmed_back(v@.subrange(a as int, b as int)),
        decreases b,
    {
        proof {
            assert(v@.subrange(a as int, b as int).drop_last() =~= v@.subrange(a as int, b - 1));
        }
        b = b - 1;
    }
    text_between(&v, a, b)
}

/// The number that decimal digits stand for.
pub open spec fn decimal_value(s: Seq<char>) -> int
    decreases s.len(),
{
    if s.len() == 0 {
        0
    } else {
        decimal_value(s.drop_last()) * 10 + (s.last() as int - '0' as int)
    }
}

/// Every character is a decimal digit.
pub open spec fn all_decimal(s: Seq<char>) -> bool {
    forall|i: int| 0 <= i < s.len() ==> '0' <= #[trigger] s[i] <= '9'
}

/// A number in decimal reads back as the number, and has no leading zero but for the number 0.
pub proof fn law_decimal(n: nat)
    ensures
        decimal_value(dec(n)) == n,
        all_decimal(dec(n)),
        dec(n).len() >= 1,
        n > 0 ==> dec(n)[0] != '0',
        n == 0 ==> dec(n) == seq!['0'],
    decreases n,
{
    if n < 10 {
        reveal_with_fuel(decimal_value, 2);
        assert(dec(n).drop_last() =~= Seq::empty());
    } else {
        law_decimal(n / 10);
        assert(dec(n).drop_last() =~= dec(n / 10));
    }
}

/// A negative number is its opposite behind a minus sign, and any other has no sign.
pub proof fn law_signed_decimal(n: int)
    ensures
        n < 0 ==> signed_dec(n)[0] == '-' && all_decimal(signed_dec(n).skip(1)) && decimal_value(
            signed_dec(n).skip(1),
        ) == -n,
        n >= 0 ==> all_decimal(signed_dec(n)) && decimal_value(signed_dec(n)) == n,
{
    if n < 0 {
        law_decimal((-n) as nat);
        assert(signed_dec(n).skip(1) =~= dec((-n) as nat));
    } else {
        law_decimal(n as nat);
    }
}

/// A number in a fixed number of digits has that many, and reads back where it fits.
pub proof fn law_fixed_decimal(n: int, width: nat)
    requires
        0 <= n < vstd::arithmetic::power::pow(10, width),
    ensures
        fixed_dec(n, width).len() == width,
        all_decimal(fixed_dec(n, width)),
        decimal_value(fixed_dec(n, width)) == n,
    decreases width,
{
    vstd::arithmetic::power::lemma_pow0(10);
    if width > 0 {
        let less = (width - 1) as nat;
        reveal(vstd::arithmetic::power::pow);
        assert(vstd::arithmetic::power::pow(10, width) == 10 * vstd::arithmetic::power::pow(
            10,
            less,
        ));
        law_fixed_decimal(n / 10, less);
        assert(fixed_dec(n, width).drop_last() =~= fixed_dec(n / 10, less));
    }
}

/// A text stands in another exactly if the other is some text, it, and some text; in front if nothing
/// comes before it, and at the end if nothing comes after it.
pub proof fn law_parts_of_texts(before: Seq<char>, part: Seq<char>, after: Seq<char>, s: Seq<char>)
    ensures
        has_infix(before + part + after, part),
        has_prefix(part + after, part),
        has_suffix(before + part, part),
        has_infix(s, part) ==> exists|i: int|
            0 <= i <= s.len() - part.len() && s == #[trigger] s.take(i) + part + s.skip(
                i + part.len(),
            ),
        has_prefix(s, part) ==> s == part + s.skip(part.len() as int),
        has_suffix(s, part) ==> s == s.take(s.len() - part.len()) + part,
{
    let whole = before + part + after;
    let k = before.len() as int;
    assert(whole.subrange(k, k + part.len()) =~= part);
    assert(stands_at(whole, part, k));
    assert((part + after).subrange(0, part.len() as int) =~= part);
    assert((before + part).subrange(k, k + part.len()) =~= part);
    if has_infix(s, part) {
        let i = choose|i: int| #[trigger] stands_at(s, part, i);
        assert(s =~= s.take(i) + s.subrange(i, i + part.len()) + s.skip(i + part.len()));
        assert(s == s.take(i) + part + s.skip(i + part.len()));
    }
    if has_prefix(s, part) {
        assert(s =~= s.subrange(0, part.len() as int) + s.skip(part.len() as int));
    }
    if has_suffix(s, part) {
        let i = s.len() - part.len();
        assert(s =~= s.take(i) + s.subrange(i, i + part.len()));
    }
}

/// Everything before `i` and from `j` on is white space, and what is between neither begins nor ends
/// with it.
pub open spec fn trims_to(s: Seq<char>, i: int, j: int) -> bool {
    &&& 0 <= i <= j <= s.len()
    &&& forall|k: int| 0 <= k < i || j <= k < s.len() ==> is_white(#[trigger] s[k])
    &&& i < j ==> !is_white(s[i]) && !is_white(s[j - 1])
}

proof fn front_trims(s: Seq<char>)
    ensures
        trimmed_front(s).len() <= s.len(),
        trimmed_front(s) == s.skip(s.len() - trimmed_front(s).len()),
        forall|k: int|
            0 <= k < s.len() - trimmed_front(s).len() ==> is_white(#[trigger] s[k]),
        trimmed_front(s).len() > 0 ==> !is_white(trimmed_front(s)[0]),
    decreases s.len(),
{
    if s.len() > 0 && is_white(s[0]) {
        let rest = s.skip(1);
        assert(rest =~= s.drop_first());
        front_trims(rest);
        let n = s.len() - trimmed_front(s).len();
        assert(trimmed_front(s) == trimmed_front(rest));
        assert(rest.skip(rest.len() - trimmed_front(rest).len()) =~= s.skip(n));
        assert forall|k: int| 0 <= k < n implies is_white(#[trigger] s[k]) by {
            if k > 0 {
                assert(rest[k - 1] == s[k]);
            }
        }
    } else {
        assert(trimmed_front(s) == s);
        assert(s.skip(0) =~= s);
    }
}

proof fn back_trims(s: Seq<char>)
    ensures
        trimmed_back(s).len() <= s.len(),
        trimmed_back(s) == s.take(trimmed_back(s).len() as int),
        forall|k: int| trimmed_back(s).len() <= k < s.len() ==> is_white(#[trigger] s[k]),
        trimmed_back(s).len() > 0 ==> !is_white(trimmed_back(s).last()),
    decreases s.len(),
{
    if s.len() > 0 && is_white(s.last()) {
        let rest = s.drop_last();
        back_trims(rest);
        assert(trimmed_back(s) == trimmed_back(rest));
        assert(rest.take(trimmed_back(rest).len() as int) =~= s.take(
            trimmed_back(rest).len() as int,
        ));
        assert forall|k: int| trimmed_back(s).len() <= k < s.len() implies is_white(
            #[trigger] s[k],
        ) by {
            if k < s.len() - 1 {
                assert(rest[k] == s[k]);
            }
        }
    } else {
        assert(s.take(s.len() as int) =~= s);
    }
}

/// Trimming takes away the white space in front and at the end, all of it and nothing else.
pub proof fn law_trimming(s: Seq<char>)
    ensures
        exists|i: int, j: int| #[trigger] trims_to(s, i, j) && trimmed(s) == s.subrange(i, j),
{
    front_trims(s);
    let f = trimmed_front(s);
    back_trims(f);
    let b = trimmed(s);
    let i = s.len() - f.len();
    let j = i + b.len();
    assert forall|k: int| j <= k < s.len() implies is_white(#[trigger] s[k]) by {
        assert(f[k - i] == s[k]);
    }
    assert(b =~= s.subrange(i, j));
    if b.len() > 0 {
        assert(b[0] == f[0]);
        assert(b.last() == f[b.len() - 1]);
    }
    assert(trims_to(s, i, j));
}

/// Texts are joined in their order, with the separator between any two and nowhere else.
pub proof fn law_joined(a: Seq<Seq<char>>, b: Seq<Seq<char>>, one: Seq<char>, sep: Seq<char>)
    ensures
        joined(Seq::empty(), sep).len() == 0,
        joined(seq![one], sep) == one,
        a.len() > 0 && b.len() > 0 ==> joined(a + b, sep) == joined(a, sep) + sep + joined(b, sep),
    decreases b.len(),
{
    if a.len() > 0 && b.len() > 0 {
        assert((a + b).drop_last() =~= a + b.drop_last());
        if b.len() == 1 {
            assert(a + b.drop_last() =~= a);
            assert(joined(b, sep) == b[0]);
        } else {
            law_joined(a, b.drop_last(), one, sep);
            assert(joined(a + b, sep) =~= joined(a, sep) + sep + joined(b, sep));
        }
    }
}

/// A text without its blanks has its other characters, in their order.
pub proof fn law_without_blanks(s: Seq<char>)
    ensures
        without_blanks(s) == s.filter(|c: char| c != ' '),
    decreases s.len(),
{
    reveal(Seq::filter);
    if s.len() > 0 {
        law_without_blanks(s.drop_last());
    }
}

/// A flat name has a `_` for each character that separates directories, and is otherwise the same.
pub proof fn law_flat(s: Seq<char>)
    ensures
        flat(s).len() == s.len(),
        forall|i: int|
            0 <= i < s.len() ==> #[trigger] flat(s)[i] == (if s[i] == '/' || s[i] == '\\' {
                '_'
            } else {
                s[i]
            }),
{
}

/// Texts are seen one for one, in their order.
pub proof fn law_texts(v: Seq<String>)
    ensures
        texts(v).len() == v.len(),
        forall|i: int| 0 <= i < v.len() ==> #[trigger] texts(v)[i] == v[i]@,
{
}

/// Doubling quotes goes over the characters one by one: a quote becomes two, any other stays.
pub proof fn law_quotes_doubled(a: Seq<char>, b: Seq<char>, c: char)
    ensures
        quotes_doubled(a + b) == quotes_doubled(a) + quotes_doubled(b),
        quotes_doubled(seq![c]) == (if c == '"' {
            seq!['"', '"']
        } else {
            seq![c]
        }),
    decreases b.len(),
{
    reveal_with_fuel(quotes_doubled, 2);
    assert(seq![c].drop_last() =~= Seq::empty());
    assert(quotes_doubled(seq![c]) =~= (if c == '"' {
        seq!['"', '"']
    } else {
        seq![c]
    }));
    if b.len() == 0 {
        assert(a + b =~= a);
        assert(quotes_doubled(a) + quotes_doubled(b) =~= quotes_doubled(a));
    } else {
        law_quotes_doubled(a, b.drop_last(), c);
        assert((a + b).drop_last() =~= a + b.drop_last());
        assert(quotes_doubled(a + b) =~= quotes_doubled(a) + quotes_doubled(b));
    }
}

/// The name of a file is made from the characters one by one. A slash becomes an underscore, and a
/// character that needs no marking stays as it is.
pub proof fn law_file_names_join(a: Seq<char>, b: Seq<char>, c: char)
    ensures
        file_safe(a + b) == file_safe(a) + file_safe(b),
        c != '/' && c != '_' && c != '\\' && c != '%' ==> file_safe(seq![c]) == seq![c],
        file_safe(seq!['/']) == seq!['_'],
    decreases b.len(),
{
    reveal_with_fuel(file_safe, 2);
    assert(seq![c].drop_last() =~= Seq::empty());
    assert(seq!['/'].drop_last() =~= Seq::empty());
    assert(file_safe(seq![c]) =~= file_code(c));
    assert(file_safe(seq!['/']) =~= file_code('/'));
    if b.len() == 0 {
        assert(a + b =~= a);
        assert(file_safe(a) + file_safe(b) =~= file_safe(a));
    } else {
        law_file_names_join(a, b.drop_last(), c);
        assert((a + b).drop_last() =~= a + b.drop_last());
        assert(file_safe(a + b) =~= file_safe(a) + file_safe(b));
    }
}

/// White space below 128 is the blank and the five characters from the tab to the carriage return; a
/// letter, a digit or a sign is none.
pub proof fn law_white_space(c: char)
    requires
        (c as int) < 128,
    ensures
        is_white(c) <==> c == ' ' || 9 <= c as int <= 13,
{
}

} // verus!
