//! Text helpers with the exact behaviour of the standard operations the
//! planner relies on: whitespace trimming, joining, decimal rendering.
use vstd::prelude::*;

verus! {

/// The Unicode `White_Space` property, which `char::is_whitespace` tests.
pub open spec fn is_white_space(c: char) -> bool {
    let u = c as u32;
    ||| 0x09 <= u <= 0x0d
    ||| u == 0x20
    ||| u == 0x85
    ||| u == 0xa0
    ||| u == 0x1680
    ||| 0x2000 <= u <= 0x200a
    ||| u == 0x2028
    ||| u == 0x2029
    ||| u == 0x202f
    ||| u == 0x205f
    ||| u == 0x3000
}

/// Number of whitespace characters at the start of `s`.
pub open spec fn leading_space(s: Seq<char>) -> nat
    decreases s.len(),
{
    if s.len() > 0 && is_white_space(s[0]) {
        1 + leading_space(s.drop_first())
    } else {
        0
    }
}

/// Number of whitespace characters at the end of `s`.
pub open spec fn trailing_space(s: Seq<char>) -> nat
    decreases s.len(),
{
    if s.len() > 0 && is_white_space(s.last()) {
        1 + trailing_space(s.drop_last())
    } else {
        0
    }
}

/// `s` without its leading and trailing whitespace (what `str::trim` gives).
pub open spec fn trim_text(s: Seq<char>) -> Seq<char> {
    let t = s.skip(leading_space(s) as int);
    t.take(t.len() - trailing_space(t))
}

/// A text is blank when nothing but whitespace is in it.
pub open spec fn is_blank_text(s: Seq<char>) -> bool {
    trim_text(s).len() == 0
}

pub proof fn lemma_leading_space_bound(s: Seq<char>)
    ensures
        leading_space(s) <= s.len(),
        forall|i: int| 0 <= i < leading_space(s) ==> is_white_space(#[trigger] s[i]),
        leading_space(s) < s.len() ==> !is_white_space(s[leading_space(s) as int]),
    decreases s.len(),
{
    if s.len() > 0 && is_white_space(s[0]) {
        lemma_leading_space_bound(s.drop_first());
        assert forall|i: int| 0 <= i < leading_space(s) implies is_white_space(#[trigger] s[i]) by {
            if i > 0 {
                assert(s[i] == s.drop_first()[i - 1]);
            }
        }
    }
}

pub proof fn lemma_trailing_space_bound(s: Seq<char>)
    ensures
        trailing_space(s) <= s.len(),
        forall|i: int| s.len() - trailing_space(s) <= i < s.len() ==> is_white_space(#[trigger] s[i]),
        trailing_space(s) < s.len() ==> !is_white_space(s[s.len() - trailing_space(s) - 1]),
    decreases s.len(),
{
    if s.len() > 0 && is_white_space(s.last()) {
        lemma_trailing_space_bound(s.drop_last());
        assert forall|i: int| s.len() - trailing_space(s) <= i < s.len() implies is_white_space(#[trigger] s[i]) by {
            if i < s.len() - 1 {
                assert(s[i] == s.drop_last()[i]);
            }
        }
    }
}

/// `char::is_whitespace`.
pub fn is_whitespace(c: char) -> (r: bool)
    ensures
        r == is_white_space(c),
{
    let u = c as u32;
    (0x09 <= u && u <= 0x0d) || u == 0x20 || u == 0x85 || u == 0xa0 || u == 0x1680 || (0x2000 <= u
        && u <= 0x200a) || u == 0x2028 || u == 0x2029 || u == 0x202f || u == 0x205f || u == 0x3000
}

/// `s.trim().to_string()`: the text without leading and trailing whitespace.
pub fn trim(s: &str) -> (r: String)
    ensures
        r@ == trim_text(s@),
{
    let n = s.unicode_len();
    let ghost t = s@;
    let mut i: usize = 0;
    assert(t.skip(0) =~= t);
    loop
        invariant
            t == s@,
            n == t.len(),
            i <= n,
            leading_space(t) == i + leading_space(t.skip(i as int)),
        ensures
            i <= n,
            leading_space(t) == i,
        decreases n - i,
    {
        if i == n {
            assert(t.skip(i as int).len() == 0);
            break;
        }
        let c = s.get_char(i);
        if !is_whitespace(c) {
            assert(t.skip(i as int)[0] == c);
            break;
        }
        assert(t.skip(i as int)[0] == c);
        assert(t.skip(i as int).drop_first() =~= t.skip(i + 1));
        i = i + 1;
    }
    let ghost u = t.skip(i as int);
    let mut j: usize = n;
    assert(u.take((n - i) as int) =~= u);
    loop
        invariant
            t == s@,
            n == t.len(),
            u == t.skip(i as int),
            i <= j <= n,
            trailing_space(u) == (n - j) + trailing_space(u.take(j - i)),
        ensures
            i <= j <= n,
            trailing_space(u) == n - j,
        decreases j - i,
    {
        assert(u.take((n - i) as int) =~= u);
        if j == i {
            assert(u.take(0).len() == 0);
            break;
        }
        let c = s.get_char(j - 1);
        assert(u.take(j - i).last() == c);
        if !is_whitespace(c) {
            break;
        }
        assert(u.take(j - i).drop_last() =~= u.take(j - 1 - i));
        j = j - 1;
    }
    proof {
        assert(u.take((n - i) as int) =~= u);
    }
    let piece = s.substring_char(i, j);
    assert(piece@ =~= trim_text(t));
    String::from_str(piece)
}

/// Whether `s` holds nothing but whitespace (`s.trim().is_empty()`).
pub fn is_blank(s: &str) -> (r: bool)
    ensures
        r == is_blank_text(s@),
{
    let t = trim(s);
    t.as_str().is_empty()
}

/// The pieces of `items` with `sep` between each two of them.
pub open spec fn join_text(items: Seq<Seq<char>>, sep: Seq<char>) -> Seq<char>
    decreases items.len(),
{
    if items.len() == 0 {
        Seq::empty()
    } else if items.len() == 1 {
        items[0]
    } else {
        join_text(items.drop_last(), sep) + sep + items.last()
    }
}

/// The views of a vector of strings.
pub open spec fn texts(v: Seq<String>) -> Seq<Seq<char>> {
    v.map_values(|s: String| s@)
}

/// `items.join(sep)`.
pub fn join(items: &Vec<String>, sep: &str) -> (r: String)
    ensures
        r@ == join_text(texts(items@), sep@),
{
    let mut r = String::new();
    let n = items.len();
    let ghost all = texts(items@);
    let mut i: usize = 0;
    while i < n
        invariant
            n == items@.len(),
            all == texts(items@),
            i <= n,
            r@ == join_text(all.take(i as int), sep@),
        decreases n - i,
    {
        assert(all.take(i + 1).drop_last() =~= all.take(i as int));
        if i > 0 {
            r.append(sep);
        }
        r.append(items[i].as_str());
        assert(all.take(i + 1).last() == items@[i as int]@);
        if i == 0 {
            assert(r@ =~= join_text(all.take(1), sep@));
        }
        i = i + 1;
    }
    assert(all.take(n as int) =~= all);
    r
}

/// The decimal digit `d` as text.
pub open spec fn digit_text(d: nat) -> Seq<char> {
    if d == 0 {
        "0"@
    } else if d == 1 {
        "1"@
    } else if d == 2 {
        "2"@
    } else if d == 3 {
        "3"@
    } else if d == 4 {
        "4"@
    } else if d == 5 {
        "5"@
    } else if d == 6 {
        "6"@
    } else if d == 7 {
        "7"@
    } else if d == 8 {
        "8"@
    } else {
        "9"@
    }
}

/// The decimal notation of `n`, as `Display` prints an unsigned integer.
pub open spec fn decimal_text(n: nat) -> Seq<char>
    decreases n,
{
    if n < 10 {
        digit_text(n)
    } else {
        decimal_text(n / 10) + digit_text(n % 10)
    }
}

fn digit(d: usize) -> (r: &'static str)
    requires
        d < 10,
    ensures
        r@ == digit_text(d as nat),
{
    match d {
        0 => "0",
        1 => "1",
        2 => "2",
        3 => "3",
        4 => "4",
        5 => "5",
        6 => "6",
        7 => "7",
        8 => "8",
        _ => "9",
    }
}

/// `n.to_string()` for an unsigned integer.
pub fn decimal(n: usize) -> (r: String)
    ensures
        r@ == decimal_text(n as nat),
    decreases n,
{
    if n < 10 {
        String::from_str(digit(n))
    } else {
        let mut r = decimal(n / 10);
        r.append(digit(n % 10));
        r
    }
}

/// `a < b` for strings: lexicographic order of the characters' code points,
/// which is the byte order `str` compares by.
pub open spec fn text_less(a: Seq<char>, b: Seq<char>) -> bool
    decreases a.len(),
{
    if a.len() == 0 {
        b.len() > 0
    } else if b.len() == 0 {
        false
    } else if a[0] != b[0] {
        (a[0] as int) < (b[0] as int)
    } else {
        text_less(a.drop_first(), b.drop_first())
    }
}

pub proof fn lemma_text_less_transitive(a: Seq<char>, b: Seq<char>, c: Seq<char>)
    requires
        text_less(a, b),
        text_less(b, c),
    ensures
        text_less(a, c),
    decreases a.len(),
{
    if a.len() > 0 && b.len() > 0 && c.len() > 0 && a[0] == b[0] && b[0] == c[0] {
        lemma_text_less_transitive(a.drop_first(), b.drop_first(), c.drop_first());
    }
}

pub proof fn lemma_text_less_total(a: Seq<char>, b: Seq<char>)
    ensures
        text_less(a, b) || text_less(b, a) || a == b,
    decreases a.len(),
{
    if a.len() > 0 && b.len() > 0 {
        if a[0] == b[0] {
            lemma_text_less_total(a.drop_first(), b.drop_first());
            if a.drop_first() == b.drop_first() {
                assert(a =~= seq![a[0]] + a.drop_first());
                assert(b =~= seq![b[0]] + b.drop_first());
            }
        } else {
            assert((a[0] as int) != (b[0] as int));
        }
    } else if a.len() == 0 && b.len() == 0 {
        assert(a =~= b);
    }
}

/// `a < b` on strings.
pub fn text_before(a: &str, b: &str) -> (less: bool)
    ensures
        less == text_less(a@, b@),
{
    let n = a.unicode_len();
    let m = b.unicode_len();
    let ghost sa = a@;
    let ghost sb = b@;
    let mut i: usize = 0;
    assert(sa.skip(0) =~= sa);
    assert(sb.skip(0) =~= sb);
    loop
        invariant
            sa == a@,
            sb == b@,
            n == sa.len(),
            m == sb.len(),
            i <= n,
            i <= m,
            text_less(sa, sb) == text_less(sa.skip(i as int), sb.skip(i as int)),
        decreases n - i,
    {
        if i == n {
            return i < m;
        }
        if i == m {
            return false;
        }
        let x = a.get_char(i);
        let y = b.get_char(i);
        assert(sa.skip(i as int)[0] == x);
        assert(sb.skip(i as int)[0] == y);
        if x != y {
            return (x as u32) < (y as u32);
        }
        assert(sa.skip(i as int).drop_first() =~= sa.skip(i + 1));
        assert(sb.skip(i as int).drop_first() =~= sb.skip(i + 1));
        i = i + 1;
    }
}

/// Whether `s` begins with `prefix`.
pub open spec fn starts_with(s: Seq<char>, prefix: Seq<char>) -> bool {
    prefix.len() <= s.len() && s.subrange(0, prefix.len() as int) == prefix
}

/// `s.starts_with(prefix)`.
pub fn has_prefix(s: &str, prefix: &str) -> (r: bool)
    ensures
        r == starts_with(s@, prefix@),
{
    let n = s.unicode_len();
    let m = prefix.unicode_len();
    if m > n {
        return false;
    }
    let head = String::from_str(s.substring_char(0, m));
    let p = String::from_str(prefix);
    head == p
}

/// A line without the carriage return that ended it, if one did.
pub open spec fn strip_cr(line: Seq<char>) -> Seq<char> {
    if line.len() > 0 && line.last() == '\r' {
        line.drop_last()
    } else {
        line
    }
}

/// The lines of `s` still to come when the current line began at `start` and
/// `i` is the next character to look at: each line ends at a `'\n'` that is
/// not part of it, a line so ended loses a `'\r'` just before the `'\n'`, and
/// the text after the last `'\n'` is a line only when it is not empty.
pub open spec fn lines_from(s: Seq<char>, start: int, i: int) -> Seq<Seq<char>>
    decreases s.len() - i,
{
    if i >= s.len() {
        if start < s.len() {
            seq![s.subrange(start, s.len() as int)]
        } else {
            Seq::empty()
        }
    } else if s[i] == '\n' {
        seq![strip_cr(s.subrange(start, i))] + lines_from(s, i + 1, i + 1)
    } else {
        lines_from(s, start, i + 1)
    }
}

/// The lines of `s`, as `str::lines` yields them.
pub open spec fn text_lines(s: Seq<char>) -> Seq<Seq<char>> {
    lines_from(s, 0, 0)
}

fn without_cr(s: &str, start: usize, end: usize) -> (line: String)
    requires
        start <= end <= s@.len(),
    ensures
        line@ == strip_cr(s@.subrange(start as int, end as int)),
{
    if end > start && s.get_char(end - 1) == '\r' {
        String::from_str(s.substring_char(start, end - 1))
    } else {
        String::from_str(s.substring_char(start, end))
    }
}

/// `s.lines()`, collected.
pub fn lines(s: &str) -> (all: Vec<String>)
    ensures
        texts(all@) == text_lines(s@),
{
    let n = s.unicode_len();
    let ghost t = s@;
    let mut all: Vec<String> = Vec::new();
    let mut start: usize = 0;
    let mut i: usize = 0;
    while i < n
        invariant
            t == s@,
            n == t.len(),
            start <= i <= n,
            texts(all@) + lines_from(t, start as int, i as int) == text_lines(t),
        decreases n - i,
    {
        if s.get_char(i) == '\n' {
            let line = without_cr(s, start, i);
            let ghost before = texts(all@);
            all.push(line);
            assert(texts(all@) =~= before.push(line@));
            assert(before + lines_from(t, start as int, i as int) =~= texts(all@) + lines_from(
                t,
                i + 1,
                i + 1,
            ));
            start = i + 1;
        }
        i = i + 1;
    }
    if start < n {
        let line = String::from_str(s.substring_char(start, n));
        let ghost before = texts(all@);
        all.push(line);
        assert(texts(all@) =~= before + lines_from(t, start as int, n as int));
    } else {
        assert(texts(all@) =~= texts(all@) + lines_from(t, start as int, n as int));
    }
    all
}

/// Trimming a trimmed text changes nothing, and a trimmed text neither
/// starts nor ends with whitespace.
pub proof fn lemma_trim_idempotent(s: Seq<char>)
    ensures
        trim_text(trim_text(s)) == trim_text(s),
        trim_text(s).len() > 0 ==> !is_white_space(trim_text(s)[0]) && !is_white_space(
            trim_text(s).last(),
        ),
{
    let a = leading_space(s);
    lemma_leading_space_bound(s);
    let u = s.skip(a as int);
    lemma_trailing_space_bound(u);
    let t = trim_text(s);
    if t.len() > 0 {
        assert(t[0] == u[0]);
        assert(u[0] == s[a as int]);
        assert(t.last() == u[t.len() - 1]);
        assert(leading_space(t) == 0);
        assert(trailing_space(t) == 0);
    } else {
        assert(leading_space(t) == 0);
        assert(trailing_space(t) == 0);
    }
    assert(t.skip(0) =~= t);
    assert(t.take(t.len() as int) =~= t);
}

/// Whether `c` occurs in `s`.
pub open spec fn has_char(s: Seq<char>, c: char) -> bool {
    exists|i: int| 0 <= i < s.len() && s[i] == c
}

/// Lines of a text that follows another one start where the other ends.
pub proof fn lemma_lines_shift(a: Seq<char>, b: Seq<char>, start: int, i: int)
    requires
        0 <= start <= i <= b.len(),
    ensures
        lines_from(a + b, a.len() + start, a.len() + i) == lines_from(b, start, i),
    decreases b.len() - i,
{
    let s = a + b;
    if i < b.len() {
        assert(s[a.len() + i] == b[i]);
        if b[i] == '\n' {
            assert(s.subrange(a.len() + start, a.len() + i) =~= b.subrange(start, i));
            lemma_lines_shift(a, b, i + 1, i + 1);
        } else {
            lemma_lines_shift(a, b, start, i + 1);
        }
    } else {
        assert(s.subrange(a.len() + start, s.len() as int) =~= b.subrange(start, b.len() as int));
    }
}

/// The lines of a text that ends with a newline, followed by another text,
/// are its lines followed by the other text's lines.
pub proof fn lemma_lines_concat_from(a: Seq<char>, b: Seq<char>, start: int, i: int)
    requires
        a.len() > 0,
        a.last() == '\n',
        0 <= start <= i <= a.len(),
        i < a.len() || start == a.len(),
    ensures
        lines_from(a + b, start, i) == lines_from(a, start, i) + text_lines(b),
    decreases a.len() - i,
{
    let s = a + b;
    if i == a.len() {
        lemma_lines_shift(a, b, 0, 0);
        assert(lines_from(a, start, i) =~= Seq::<Seq<char>>::empty());
        assert(lines_from(a + b, start, i) =~= lines_from(a, start, i) + text_lines(b));
    } else {
        assert(s[i] == a[i]);
        if a[i] == '\n' {
            assert(s.subrange(start, i) =~= a.subrange(start, i));
            lemma_lines_concat_from(a, b, i + 1, i + 1);
            assert(lines_from(a + b, start, i) =~= lines_from(a, start, i) + text_lines(b));
        } else {
            lemma_lines_concat_from(a, b, start, i + 1);
        }
    }
}

pub proof fn lemma_lines_concat(a: Seq<char>, b: Seq<char>)
    requires
        a.len() > 0,
        a.last() == '\n',
    ensures
        text_lines(a + b) == text_lines(a) + text_lines(b),
{
    lemma_lines_concat_from(a, b, 0, 0);
}

/// A line without a newline, followed by a newline, is that one line.
pub proof fn lemma_lines_single(l: Seq<char>)
    requires
        !has_char(l, '\n'),
    ensures
        text_lines(l + "\n"@) == seq![strip_cr(l)],
{
    reveal_strlit("\n");
    let s = l + "\n"@;
    assert forall|k: int| 0 <= k < l.len() implies s[k] != '\n' by {
        assert(s[k] == l[k]);
    }
    lemma_lines_scan(s, l.len() as int, 0);
    assert(s[l.len() as int] == '\n');
    assert(s.subrange(0, l.len() as int) =~= l);
    assert(lines_from(s, l.len() as int + 1, l.len() as int + 1) =~= Seq::<Seq<char>>::empty());
    assert(lines_from(s, 0, l.len() as int) =~= seq![strip_cr(l)]);
}

proof fn lemma_lines_scan(s: Seq<char>, end: int, i: int)
    requires
        0 <= i <= end < s.len(),
        forall|k: int| 0 <= k < end ==> s[k] != '\n',
    ensures
        lines_from(s, 0, i) == lines_from(s, 0, end),
    decreases end - i,
{
    if i < end {
        lemma_lines_scan(s, end, i + 1);
    }
}

/// Lines joined with newlines, each followed by one, give back the lines,
/// when none holds a newline or ends with a carriage return.
pub proof fn lemma_lines_of_joined(ls: Seq<Seq<char>>)
    requires
        ls.len() > 0,
        forall|k: int| 0 <= k < ls.len() ==> !has_char(#[trigger] ls[k], '\n'),
        forall|k: int| 0 <= k < ls.len() ==> strip_cr(#[trigger] ls[k]) == ls[k],
    ensures
        text_lines(join_text(ls, "\n"@) + "\n"@) == ls,
    decreases ls.len(),
{
    reveal_strlit("\n");
    if ls.len() == 1 {
        lemma_lines_single(ls[0]);
        assert(text_lines(join_text(ls, "\n"@) + "\n"@) =~= ls);
    } else {
        let front = ls.drop_last();
        lemma_lines_of_joined(front);
        let a = join_text(front, "\n"@) + "\n"@;
        let b = ls.last() + "\n"@;
        assert(join_text(ls, "\n"@) + "\n"@ =~= a + b);
        lemma_lines_concat(a, b);
        lemma_lines_single(ls.last());
        assert(text_lines(join_text(ls, "\n"@) + "\n"@) =~= ls);
    }
}

/// No line holds a newline.
pub proof fn lemma_lines_no_newline(s: Seq<char>, start: int, i: int)
    requires
        0 <= start <= i <= s.len(),
        forall|k: int| start <= k < i ==> s[k] != '\n',
    ensures
        forall|j: int|
            0 <= j < lines_from(s, start, i).len() ==> !has_char(
                #[trigger] lines_from(s, start, i)[j],
                '\n',
            ),
    decreases s.len() - i,
{
    if i < s.len() {
        if s[i] == '\n' {
            lemma_lines_no_newline(s, i + 1, i + 1);
            let line = strip_cr(s.subrange(start, i));
            assert(!has_char(line, '\n')) by {
                if has_char(line, '\n') {
                    let k = choose|k: int| 0 <= k < line.len() && line[k] == '\n';
                    assert(s[start + k] == '\n');
                }
            }
            let rest = lines_from(s, i + 1, i + 1);
            assert(lines_from(s, start, i) =~= seq![line] + rest);
            assert forall|j: int| 0 <= j < lines_from(s, start, i).len() implies !has_char(
                #[trigger] lines_from(s, start, i)[j],
                '\n',
            ) by {
                if j > 0 {
                    assert(lines_from(s, start, i)[j] == rest[j - 1]);
                }
            }
        } else {
            lemma_lines_no_newline(s, start, i + 1);
            assert(lines_from(s, start, i) == lines_from(s, start, i + 1));
        }
    } else {
        if start < s.len() {
            let line = s.subrange(start, s.len() as int);
            assert(!has_char(line, '\n')) by {
                if has_char(line, '\n') {
                    let k = choose|k: int| 0 <= k < line.len() && line[k] == '\n';
                    assert(s[start + k] == '\n');
                }
            }
            assert(lines_from(s, start, i) =~= seq![line]);
        } else {
            assert(lines_from(s, start, i).len() == 0);
        }
    }
}

} // verus!
