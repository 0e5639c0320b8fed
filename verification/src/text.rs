//! Character-level text helpers: splitting into lines, ASCII case folding,
//! prefixes, and decimal numbers.
use vstd::prelude::*;

verus! {

broadcast use vstd::seq_lib::group_seq_properties;

/// `String::push` of std: appends one character at the end.
#[verifier::external_body]
pub(crate) fn string_push(s: &mut String, c: char)
    ensures
        final(s)@ == old(s)@.push(c),
{
    s.push(c);
}

/// The index of the last dot in `s`, or `-1` when it has none.
pub open spec fn last_dot(s: Seq<char>) -> int
    decreases s.len(),
{
    if s.len() == 0 {
        -1
    } else if s.last() == '.' {
        s.len() - 1
    } else {
        last_dot(s.drop_last())
    }
}

/// The names that denote no file: the empty name, `.` and `..`.
pub open spec fn is_dot_name(name: Seq<char>) -> bool {
    name.len() == 0 || name == seq!['.'] || name == seq!['.', '.']
}

/// The file name `name` with its extension set to `ext`, as a path of one
/// file name gets it: the extension is what follows the last dot that is
/// not the name's first character, and it is replaced, or added where there
/// is none; an empty `ext` removes it. The empty name, `.` and `..` stay as
/// they are.
pub open spec fn with_extension(name: Seq<char>, ext: Seq<char>) -> Seq<char> {
    if is_dot_name(name) {
        name
    } else {
        let d = last_dot(name);
        let stem = if d > 0 {
            name.take(d)
        } else {
            name
        };
        if ext.len() == 0 {
            stem
        } else {
            stem + seq!['.'] + ext
        }
    }
}

proof fn lemma_last_dot(s: Seq<char>, i: int)
    requires
        0 <= i <= s.len(),
        forall|j: int| i <= j < s.len() ==> s[j] != '.',
        i == 0 || s[i - 1] == '.',
    ensures
        last_dot(s) == i - 1,
    decreases s.len(),
{
    if s.len() > i {
        lemma_last_dot(s.drop_last(), i);
    }
}

/// The extension of the file name `name`, as a path of one file name has
/// it: what follows the last dot that is not the name's first character;
/// none for a name without such a dot, and for the empty name, `.` and `..`.
pub open spec fn extension_of(name: Seq<char>) -> Option<Seq<char>> {
    if is_dot_name(name) || last_dot(name) <= 0 {
        None
    } else {
        Some(name.skip(last_dot(name) + 1))
    }
}

/// One more than the index of the last dot of `cs`, or `0` when it has none.
fn after_last_dot(cs: &Vec<char>) -> (r: usize)
    ensures
        r as int == last_dot(cs@) + 1,
        r <= cs@.len(),
{
    let n = cs.len();
    let mut i: usize = n;
    while i > 0 && cs[i - 1] != '.'
        invariant
            i <= n,
            n == cs@.len(),
            forall|j: int| i <= j < n ==> cs@[j] != '.',
        decreases i,
    {
        i = i - 1;
    }
    proof {
        lemma_last_dot(cs@, i as int);
    }
    i
}

/// The extension of the file name `name`.
pub fn file_extension(name: &str) -> (r: Option<String>)
    ensures
        match extension_of(name@) {
            Some(e) => r is Some && r->0@ == e,
            None => r is None,
        },
{
    let cs = chars_of(name);
    let n = cs.len();
    if n == 0 || (n == 1 && cs[0] == '.') || (n == 2 && cs[0] == '.' && cs[1] == '.') {
        proof {
            if n == 1 {
                assert(cs@ =~= seq!['.']);
            } else if n == 2 {
                assert(cs@ =~= seq!['.', '.']);
            }
        }
        return None;
    }
    proof {
        assert(!is_dot_name(name@)) by {
            if name@ == seq!['.'] || name@ == seq!['.', '.'] {
                assert(name@[0] == '.');
            }
        }
    }
    let start = after_last_dot(&cs);
    if start <= 1 {
        return None;
    }
    let mut r = String::new();
    assert(r@ =~= cs@.subrange(start as int, start as int));
    let mut k: usize = start;
    while k < n
        invariant
            start <= k <= n,
            n == cs@.len(),
            r@ == cs@.subrange(start as int, k as int),
        decreases n - k,
    {
        proof {
            assert(cs@.subrange(start as int, k + 1) =~= cs@.subrange(start as int, k as int).push(cs@[k as int]));
        }
        string_push(&mut r, cs[k]);
        k = k + 1;
    }
    proof {
        assert(cs@.subrange(start as int, n as int) =~= cs@.skip(start as int));
    }
    Some(r)
}

proof fn lemma_last_dot_is_dot(s: Seq<char>)
    ensures
        last_dot(s) == -1 || (0 <= last_dot(s) < s.len() && s[last_dot(s)] == '.'),
    decreases s.len(),
{
    if s.len() > 0 {
        lemma_last_dot_is_dot(s.drop_last());
    }
}

/// Setting the extension of a file name keeps its first `k` characters
/// when none of them is a dot.
pub proof fn lemma_with_extension_start(name: Seq<char>, ext: Seq<char>, k: int)
    requires
        1 <= k <= name.len(),
        forall|j: int| 0 <= j < k ==> name[j] != '.',
    ensures
        with_extension(name, ext).len() >= k,
        with_extension(name, ext).take(k) == name.take(k),
{
    assert(!is_dot_name(name)) by {
        if name == seq!['.'] || name == seq!['.', '.'] {
            assert(name[0] == '.');
        }
    }
    lemma_last_dot_is_dot(name);
    let d = last_dot(name);
    if d > 0 {
        assert(d >= k);
        let stem = name.take(d);
        assert(stem.take(k) =~= name.take(k));
        if ext.len() > 0 {
            assert((stem + seq!['.'] + ext).take(k) =~= name.take(k));
        }
    } else {
        if ext.len() > 0 {
            assert((name + seq!['.'] + ext).take(k) =~= name.take(k));
        }
    }
}

/// The file name `name` with its extension set to `ext`.
pub fn with_extension_of(name: &str, ext: &str) -> (r: String)
    ensures
        r@ == with_extension(name@, ext@),
{
    let cs = chars_of(name);
    let n = cs.len();
    if n == 0 || (n == 1 && cs[0] == '.') || (n == 2 && cs[0] == '.' && cs[1] == '.') {
        proof {
            if n == 1 {
                assert(cs@ =~= seq!['.']);
            } else if n == 2 {
                assert(cs@ =~= seq!['.', '.']);
            }
        }
        return string_of(cs.as_slice());
    }
    proof {
        assert(!is_dot_name(name@)) by {
            if name@ == seq!['.'] || name@ == seq!['.', '.'] {
                assert(name@[0] == '.');
            }
        }
    }
    let i = after_last_dot(&cs);
    let stem_len: usize = if i > 1 {
        i - 1
    } else {
        n
    };
    let mut r = String::new();
    let mut k: usize = 0;
    while k < stem_len
        invariant
            stem_len <= n,
            n == cs@.len(),
            k <= stem_len,
            r@ == cs@.take(k as int),
        decreases stem_len - k,
    {
        proof {
            assert(cs@.take(k + 1) =~= cs@.take(k as int).push(cs@[k as int]));
        }
        string_push(&mut r, cs[k]);
        k = k + 1;
    }
    proof {
        if stem_len == n {
            assert(cs@.take(n as int) =~= cs@);
        }
    }
    if ext.unicode_len() > 0 {
        string_push(&mut r, '.');
        r.append(ext);
    }
    r
}

/// The characters of a string, in order.
pub fn chars_of(s: &str) -> (r: Vec<char>)
    ensures
        r@ == s@,
{
    let mut r: Vec<char> = Vec::new();
    for c in it: s.chars()
        invariant
            it.seq() == s@,
            r@ == s@.take(it.index() as int),
    {
        proof {
            assert(s@.take(it.index() + 1) =~= s@.take(it.index() as int).push(c));
        }
        r.push(c);
    }
    proof {
        assert(s@.take(s@.len() as int) =~= s@);
    }
    r
}

/// A string holding the given characters.
pub fn string_of(cs: &[char]) -> (r: String)
    ensures
        r@ == cs@,
{
    let mut r = String::new();
    let n = cs.len();
    let mut i: usize = 0;
    while i < n
        invariant
            n == cs@.len(),
            i <= n,
            r@ == cs@.take(i as int),
        decreases n - i,
    {
        proof {
            assert(cs@.take(i + 1) =~= cs@.take(i as int).push(cs@[i as int]));
        }
        string_push(&mut r, cs[i]);
        i = i + 1;
    }
    proof {
        assert(cs@.take(n as int) =~= cs@);
    }
    r
}

/// The characters as they stand in a `Vec<String>`, one sequence per string.
pub open spec fn views_of(v: Seq<String>) -> Seq<Seq<char>> {
    v.map_values(|x: String| x@)
}

/// `lines` cuts `s` into its lines, each keeping the line feed that ends it:
/// the pieces joined give `s` back, none is empty, a line feed stands only
/// at the end of a piece, and every piece but the last ends with one.
pub open spec fn is_line_split(s: Seq<char>, lines: Seq<Seq<char>>) -> bool {
    &&& lines.flatten() == s
    &&& forall|i: int| 0 <= i < lines.len() ==> #[trigger] lines[i].len() > 0
    &&& forall|i: int, j: int|
        0 <= i < lines.len() && 0 <= j < lines[i].len() - 1 ==> #[trigger] lines[i][j] != '\n'
    &&& forall|i: int| 0 <= i < lines.len() - 1 ==> #[trigger] lines[i].last() == '\n'
}

/// The pieces of a split that are finished lines: non-empty, ending with a
/// line feed, with no line feed before it.
pub open spec fn all_closed_lines(lines: Seq<Seq<char>>) -> bool {
    &&& forall|i: int| 0 <= i < lines.len() ==> #[trigger] lines[i].len() > 0
    &&& forall|i: int, j: int|
        0 <= i < lines.len() && 0 <= j < lines[i].len() - 1 ==> #[trigger] lines[i][j] != '\n'
    &&& forall|i: int| 0 <= i < lines.len() ==> #[trigger] lines[i].last() == '\n'
}

/// Splits `s` into lines, keeping each line's terminating line feed, like
/// `each_line` in Ruby. A last line without a line feed is kept too.
pub fn each_line(s: &str) -> (r: Vec<String>)
    ensures
        is_line_split(s@, views_of(r@)),
        views_of(r@) == lines_of(s@),
{
    let mut done: Vec<String> = Vec::new();
    let mut cur = String::new();
    for c in it: s.chars()
        invariant
            it.seq() == s@,
            views_of(done@).flatten() + cur@ == s@.take(it.index() as int),
            all_closed_lines(views_of(done@)),
            forall|j: int| 0 <= j < cur@.len() ==> #[trigger] cur@[j] != '\n',
    {
        let ghost old_done = views_of(done@);
        let ghost old_cur = cur@;
        string_push(&mut cur, c);
        proof {
            assert(s@.take(it.index() + 1) =~= s@.take(it.index() as int).push(c));
        }
        if c == '\n' {
            done.push(cur);
            cur = String::new();
            proof {
                let nd = views_of(done@);
                assert(nd =~= old_done.push(old_cur.push(c)));
                old_done.lemma_flatten_push(old_cur.push(c));
                assert(nd.flatten() + cur@ =~= old_done.flatten() + old_cur.push(c));
                assert forall|i: int, j: int|
                    0 <= i < nd.len() && 0 <= j < nd[i].len() - 1 implies #[trigger] nd[i][j]
                    != '\n' by {
                    if i < old_done.len() {
                        assert(nd[i] == old_done[i]);
                    } else {
                        assert(nd[i] == old_cur.push(c));
                    }
                }
                assert forall|i: int| 0 <= i < nd.len() implies #[trigger] nd[i].last()
                    == '\n' by {
                    if i < old_done.len() {
                        assert(nd[i] == old_done[i]);
                    }
                }
                assert forall|i: int| 0 <= i < nd.len() implies #[trigger] nd[i].len() > 0 by {
                    if i < old_done.len() {
                        assert(nd[i] == old_done[i]);
                    }
                }
            }
        } else {
            proof {
                assert(views_of(done@).flatten() + cur@ =~= old_done.flatten() + old_cur.push(c));
            }
        }
    }
    proof {
        assert(s@.take(s@.len() as int) =~= s@);
    }
    let ghost before = views_of(done@);
    if cur.unicode_len() > 0 {
        let ghost last = cur@;
        done.push(cur);
        proof {
            let nd = views_of(done@);
            assert(nd =~= before.push(last));
            before.lemma_flatten_push(last);
            assert forall|i: int, j: int|
                0 <= i < nd.len() && 0 <= j < nd[i].len() - 1 implies #[trigger] nd[i][j]
                != '\n' by {
                if i < before.len() {
                    assert(nd[i] == before[i]);
                } else {
                    assert(nd[i] == last);
                }
            }
            assert forall|i: int| 0 <= i < nd.len() - 1 implies #[trigger] nd[i].last()
                == '\n' by {
                assert(nd[i] == before[i]);
            }
            assert forall|i: int| 0 <= i < nd.len() implies #[trigger] nd[i].len() > 0 by {
                if i < before.len() {
                    assert(nd[i] == before[i]);
                }
            }
        }
    } else {
        proof {
            assert(cur@ =~= Seq::<char>::empty());
            assert(before.flatten() + cur@ =~= before.flatten());
        }
    }
    proof {
        lemma_lines_of(s@, views_of(done@));
    }
    done
}


/// Whether `c` is one of the ASCII digits `0` to `9`.
pub open spec fn is_digit(c: char) -> bool {
    '0' <= c <= '9'
}

/// The value of an ASCII digit.
pub open spec fn digit_value(c: char) -> int {
    c as int - '0' as int
}

/// The ASCII digit of a value from `0` to `9`.
pub open spec fn digit_char(d: int) -> char {
    (d + '0' as int) as char
}

/// The decimal digits of `n`, most significant first, without leading
/// zeros (`0` is the single digit `0`).
pub open spec fn decimal(n: nat) -> Seq<char>
    decreases n,
{
    if n < 10 {
        seq![digit_char(n as int)]
    } else {
        decimal(n / 10).push(digit_char((n % 10) as int))
    }
}

/// How `{}` formats an `i32`: its decimal digits, after a minus sign when
/// the value is negative.
pub open spec fn i32_text(x: i32) -> Seq<char> {
    if x < 0 {
        seq!['-'] + decimal((-x) as nat)
    } else {
        decimal(x as nat)
    }
}

/// Every character of `ds` is an ASCII digit.
pub open spec fn all_digits(ds: Seq<char>) -> bool {
    forall|i: int| 0 <= i < ds.len() ==> is_digit(#[trigger] ds[i])
}

/// The number that a sequence of digits writes in base ten.
pub open spec fn digits_value(ds: Seq<char>) -> int
    decreases ds.len(),
{
    if ds.len() == 0 {
        0
    } else {
        digits_value(ds.drop_last()) * 10 + digit_value(ds.last())
    }
}

/// The text after a leading `+` or `-`, if there is one.
pub open spec fn unsigned_part(s: Seq<char>) -> Seq<char> {
    if s.len() > 0 && (s[0] == '-' || s[0] == '+') {
        s.skip(1)
    } else {
        s
    }
}

/// What `str::parse::<i32>` accepts and gives: an optional `+` or `-`, then
/// one or more ASCII digits whose signed value fits in an `i32`.
pub open spec fn parse_i32_spec(s: Seq<char>) -> Option<i32> {
    let neg = s.len() > 0 && s[0] == '-';
    let ds = unsigned_part(s);
    if ds.len() == 0 || !all_digits(ds) {
        None
    } else {
        let v = if neg { -digits_value(ds) } else { digits_value(ds) };
        if i32::MIN <= v <= i32::MAX {
            Some(v as i32)
        } else {
            None
        }
    }
}

proof fn lemma_all_digits_push(ds: Seq<char>, c: char)
    requires
        all_digits(ds),
        is_digit(c),
    ensures
        all_digits(ds.push(c)),
{
    assert forall|j: int| 0 <= j < ds.push(c).len() implies is_digit(#[trigger] ds.push(c)[j]) by {
        if j < ds.len() {
            assert(ds.push(c)[j] == ds[j]);
        }
    }
}

proof fn lemma_digit_char(d: int)
    requires
        0 <= d < 10,
    ensures
        is_digit(digit_char(d)),
        digit_value(digit_char(d)) == d,
{
}

proof fn lemma_digits_value_nonneg(ds: Seq<char>)
    requires
        all_digits(ds),
    ensures
        digits_value(ds) >= 0,
    decreases ds.len(),
{
    if ds.len() > 0 {
        assert(is_digit(ds[ds.len() - 1]));
        lemma_digits_value_nonneg(ds.drop_last());
    }
}

/// A longer run of digits is worth at least as much as its prefix.
proof fn lemma_digits_value_prefix(ds: Seq<char>, k: int)
    requires
        all_digits(ds),
        0 <= k <= ds.len(),
    ensures
        digits_value(ds.take(k)) <= digits_value(ds),
    decreases ds.len(),
{
    if k < ds.len() {
        let p = ds.drop_last();
        assert(all_digits(p));
        assert(is_digit(ds[ds.len() - 1]));
        lemma_digits_value_prefix(p, k);
        assert(p.take(k) =~= ds.take(k));
        lemma_digits_value_nonneg(p);
    } else {
        assert(ds.take(k) =~= ds);
    }
}

/// The decimal digits of `n` are digits, start with a digit, and are worth `n`.
pub proof fn lemma_decimal(n: nat)
    ensures
        decimal(n).len() > 0,
        all_digits(decimal(n)),
        digits_value(decimal(n)) == n,
    decreases n,
{
    if n < 10 {
        lemma_digit_char(n as int);
        let d = decimal(n);
        assert(d.drop_last() =~= Seq::<char>::empty());
        assert(digits_value(d.drop_last()) == 0);
        assert(d.last() == digit_char(n as int));
    } else {
        lemma_decimal(n / 10);
        lemma_digit_char((n % 10) as int);
        let d = decimal(n);
        assert(d.drop_last() =~= decimal(n / 10));
        assert forall|i: int| 0 <= i < d.len() implies is_digit(#[trigger] d[i]) by {
            if i < d.len() - 1 {
                assert(d[i] == decimal(n / 10)[i]);
            }
        }
        assert(d.last() == digit_char((n % 10) as int));
        assert(digits_value(d) == digits_value(decimal(n / 10)) * 10 + (n % 10) as int);
        assert((n / 10) * 10 + n % 10 == n) by (nonlinear_arith);
    }
}

/// Formatting an `i32` and parsing the text gives the same number back.
pub proof fn law_i32_text_parses_back(x: i32)
    ensures
        parse_i32_spec(i32_text(x)) == Some(x),
{
    if x < 0 {
        let m = (-x) as nat;
        lemma_decimal(m);
        let s = i32_text(x);
        assert(s.skip(1) =~= decimal(m));
    } else {
        lemma_decimal(x as nat);
        let d = decimal(x as nat);
        assert(is_digit(d[0]));
    }
}

fn digit_of(d: u32) -> (c: char)
    requires
        d < 10,
    ensures
        c == digit_char(d as int),
{
    match d {
        0 => '0',
        1 => '1',
        2 => '2',
        3 => '3',
        4 => '4',
        5 => '5',
        6 => '6',
        7 => '7',
        8 => '8',
        _ => '9',
    }
}

/// Appends the decimal digits of `n`.
pub fn push_decimal(out: &mut String, n: u32)
    ensures
        final(out)@ == old(out)@ + decimal(n as nat),
    decreases n,
{
    if n >= 10 {
        push_decimal(out, n / 10);
    }
    let ghost mid = out@;
    string_push(out, digit_of(n % 10));
    proof {
        if n < 10 {
            assert(mid =~= old(out)@);
            assert(decimal(n as nat) =~= seq![digit_char(n as int)]);
        }
    }
    assert(final(out)@ =~= old(out)@ + decimal(n as nat));
}

/// Appends an `i32` as `{}` formats it.
pub fn push_i32(out: &mut String, x: i32)
    ensures
        final(out)@ == old(out)@ + i32_text(x),
{
    if x < 0 {
        string_push(out, '-');
        let m: u32 = (0i64 - x as i64) as u32;
        push_decimal(out, m);
        assert(final(out)@ =~= old(out)@ + i32_text(x));
    } else {
        push_decimal(out, x as u32);
    }
}

/// Parses an `i32` as `str::parse::<i32>` does.
pub fn parse_i32(s: &[char]) -> (r: Option<i32>)
    ensures
        r == parse_i32_spec(s@),
{
    let n = s.len();
    let neg = n > 0 && s[0] == '-';
    let signed = n > 0 && (s[0] == '-' || s[0] == '+');
    let start: usize = if signed { 1 } else { 0 };
    let ghost ds = unsigned_part(s@);
    proof {
        if !signed {
            assert(s@.skip(0) =~= s@);
        }
    }
    if start == n {
        return None;
    }
    let mut v: i64 = 0;
    let mut i: usize = start;
    while i < n
        invariant
            n == s@.len(),
            start <= i <= n,
            start == (if signed { 1int } else { 0int }),
            ds == s@.skip(start as int),
            ds == unsigned_part(s@),
            all_digits(ds.take(i - start)),
            v == digits_value(ds.take(i - start)),
            0 <= v <= 2147483648,
        decreases n - i,
    {
        let c = s[i];
        if !('0' <= c && c <= '9') {
            proof {
                assert(ds[i - start] == c);
                assert(!is_digit(ds[i - start]));
                assert(!all_digits(ds));
            }
            return None;
        }
        let ghost k = i - start;
        proof {
            assert(ds.take(k + 1).drop_last() =~= ds.take(k));
            assert(ds.take(k + 1).last() == c);
        }
        v = v * 10 + (c as u32 - '0' as u32) as i64;
        proof {
            assert(digits_value(ds.take(k + 1)) == digits_value(ds.take(k)) * 10 + digit_value(c));
            assert(v == digits_value(ds.take(k + 1)));
        }
        i = i + 1;
        proof {
            lemma_all_digits_push(ds.take(k), c);
            assert(ds.take(k).push(c) =~= ds.take(k + 1));
        }
        if v > 2147483648 {
            proof {
                if all_digits(ds) {
                    lemma_digits_value_prefix(ds, k + 1);
                    assert(digits_value(ds) > 2147483648);
                }
            }
            return None;
        }
    }
    proof {
        assert(ds.take(n - start) =~= ds);
    }
    if neg {
        Some((0 - v) as i32)
    } else if v <= 2147483647 {
        Some(v as i32)
    } else {
        None
    }
}


/// The line split of `s` (see `is_line_split`); `law_line_split_unique`
/// shows that there is at most one.
pub open spec fn lines_of(s: Seq<char>) -> Seq<Seq<char>> {
    choose|lines: Seq<Seq<char>>| is_line_split(s, lines)
}

/// A text has at most one line split: `each_line` has a single possible
/// result for each input.
pub proof fn law_line_split_unique(s: Seq<char>, a: Seq<Seq<char>>, b: Seq<Seq<char>>)
    requires
        is_line_split(s, a),
        is_line_split(s, b),
    ensures
        a == b,
    decreases a.len(),
{
    if a.len() == 0 {
        if b.len() > 0 {
            assert(b[0].len() > 0);
            assert(b.flatten() == b[0] + b.drop_first().flatten());
        }
        assert(a =~= b);
    } else {
        if b.len() == 0 {
            assert(a[0].len() > 0);
            assert(a.flatten() == a[0] + a.drop_first().flatten());
            assert(false);
        }
        let x = a[0];
        let y = b[0];
        assert(a.flatten() == x + a.drop_first().flatten());
        assert(b.flatten() == y + b.drop_first().flatten());
        lemma_first_line_equal(s, a, b);
        lemma_first_line_equal(s, b, a);
        assert(x.len() == y.len());
        assert(x =~= s.take(x.len() as int));
        assert(y =~= s.take(y.len() as int));
        let rest = s.skip(x.len() as int);
        assert(a.drop_first().flatten() =~= rest);
        assert(b.drop_first().flatten() =~= rest);
        lemma_split_drop_first(s, a);
        lemma_split_drop_first(s, b);
        law_line_split_unique(rest, a.drop_first(), b.drop_first());
        assert(a =~= seq![x] + a.drop_first());
        assert(b =~= seq![y] + b.drop_first());
    }
}

proof fn lemma_split_drop_first(s: Seq<char>, a: Seq<Seq<char>>)
    requires
        is_line_split(s, a),
        a.len() > 0,
    ensures
        is_line_split(s.skip(a[0].len() as int), a.drop_first()),
{
    let t = a.drop_first();
    assert(a.flatten() == a[0] + t.flatten());
    assert(t.flatten() =~= s.skip(a[0].len() as int));
    assert forall|i: int| 0 <= i < t.len() implies #[trigger] t[i].len() > 0 by {
        assert(t[i] == a[i + 1]);
    }
    assert forall|i: int, j: int| 0 <= i < t.len() && 0 <= j < t[i].len() - 1 implies #[trigger] t[i][j]
        != '\n' by {
        assert(t[i] == a[i + 1]);
    }
    assert forall|i: int| 0 <= i < t.len() - 1 implies #[trigger] t[i].last() == '\n' by {
        assert(t[i] == a[i + 1]);
    }
}

/// The first line of one split is no shorter than the first line of another.
proof fn lemma_first_line_equal(s: Seq<char>, a: Seq<Seq<char>>, b: Seq<Seq<char>>)
    requires
        is_line_split(s, a),
        is_line_split(s, b),
        a.len() > 0,
        b.len() > 0,
    ensures
        a[0].len() <= b[0].len(),
{
    let x = a[0];
    let y = b[0];
    assert(a.flatten() == x + a.drop_first().flatten());
    assert(b.flatten() == y + b.drop_first().flatten());
    if y.len() < x.len() {
        // `y` is a proper prefix of `x`.
        if b.len() > 1 {
            assert(y.last() == '\n');
            assert(s[y.len() - 1] == y[y.len() - 1]);
            assert(s[y.len() - 1] == x[y.len() - 1]);
            assert(x[y.len() - 1] != '\n');
        } else {
            assert(b.drop_first().flatten() =~= Seq::<char>::empty());
            assert(s.len() == y.len());
        }
    }
}

/// Splitting a text that ends with a line feed, followed by another, gives
/// the lines of the first followed by the lines of the second.
pub proof fn lemma_line_split_concat(
    s1: Seq<char>,
    a: Seq<Seq<char>>,
    s2: Seq<char>,
    b: Seq<Seq<char>>,
)
    requires
        is_line_split(s1, a),
        is_line_split(s2, b),
        s1.len() == 0 || s1.last() == '\n',
    ensures
        is_line_split(s1 + s2, a + b),
{
    let c = a + b;
    vstd::seq_lib::lemma_flatten_concat(a, b);
    if a.len() > 0 {
        // The last line of `a` ends `s1`, so it ends with a line feed.
        assert(a.flatten() =~= a.drop_last().flatten() + a.last()) by {
            a.drop_last().lemma_flatten_push(a.last());
            assert(a.drop_last().push(a.last()) =~= a);
        }
        assert(a.last().len() > 0);
        assert(a.last().last() == s1.last());
    }
    assert forall|i: int| 0 <= i < c.len() implies #[trigger] c[i].len() > 0 by {
        if i < a.len() {
            assert(c[i] == a[i]);
        } else {
            assert(c[i] == b[i - a.len()]);
        }
    }
    assert forall|i: int, j: int| 0 <= i < c.len() && 0 <= j < c[i].len() - 1 implies #[trigger] c[i][j]
        != '\n' by {
        if i < a.len() {
            assert(c[i] == a[i]);
        } else {
            assert(c[i] == b[i - a.len()]);
        }
    }
    assert forall|i: int| 0 <= i < c.len() - 1 implies #[trigger] c[i].last() == '\n' by {
        if i < a.len() {
            assert(c[i] == a[i]);
        } else {
            assert(c[i] == b[i - a.len()]);
        }
    }
}

/// The split of a text is the one that `lines_of` names.
pub proof fn lemma_lines_of(s: Seq<char>, a: Seq<Seq<char>>)
    requires
        is_line_split(s, a),
    ensures
        lines_of(s) == a,
{
    let l = lines_of(s);
    assert(is_line_split(s, l));
    law_line_split_unique(s, l, a);
}

/// `p` is a prefix of `s`.
pub open spec fn starts_with(s: Seq<char>, p: Seq<char>) -> bool {
    p.len() <= s.len() && s.take(p.len() as int) == p
}

/// `p` is a suffix of `s`.
pub open spec fn ends_with(s: Seq<char>, p: Seq<char>) -> bool {
    p.len() <= s.len() && s.skip(s.len() - p.len()) == p
}

/// Whether `s` starts with `p`.
pub fn has_prefix(s: &[char], p: &str) -> (r: bool)
    ensures
        r == starts_with(s@, p@),
{
    let m = p.unicode_len();
    if m > s.len() {
        return false;
    }
    let mut i: usize = 0;
    while i < m
        invariant
            m == p@.len(),
            m <= s@.len(),
            i <= m,
            forall|j: int| 0 <= j < i ==> s@[j] == p@[j],
        decreases m - i,
    {
        if s[i] != p.get_char(i) {
            return false;
        }
        i = i + 1;
    }
    assert(s@.take(m as int) =~= p@);
    true
}

/// Whether `s` ends with `p`.
pub fn has_suffix(s: &[char], p: &str) -> (r: bool)
    ensures
        r == ends_with(s@, p@),
{
    let m = p.unicode_len();
    let n = s.len();
    if m > n {
        return false;
    }
    let mut i: usize = 0;
    while i < m
        invariant
            m == p@.len(),
            n == s@.len(),
            m <= n,
            i <= m,
            forall|j: int| 0 <= j < i ==> s@[n - m + j] == p@[j],
        decreases m - i,
    {
        if s[n - m + i] != p.get_char(i) {
            return false;
        }
        i = i + 1;
    }
    assert(s@.skip(n - m) =~= p@);
    true
}


/// Every text has a line split.
pub proof fn lemma_line_split_exists(s: Seq<char>)
    ensures
        is_line_split(s, lines_of(s)),
    decreases s.len(),
{
    if s.len() == 0 {
        let e = Seq::<Seq<char>>::empty();
        assert(e.flatten() =~= s);
        assert(is_line_split(s, e));
    } else {
        let t = s.drop_last();
        let c = s.last();
        lemma_line_split_exists(t);
        let a = lines_of(t);
        if a.len() == 0 || a.last().last() == '\n' {
            let b = a.push(seq![c]);
            a.lemma_flatten_push(seq![c]);
            assert(b.flatten() =~= s);
            assert forall|i: int| 0 <= i < b.len() implies #[trigger] b[i].len() > 0 by {
                if i < a.len() {
                    assert(b[i] == a[i]);
                }
            }
            assert forall|i: int, j: int| 0 <= i < b.len() && 0 <= j < b[i].len() - 1 implies #[trigger] b[i][j]
                != '\n' by {
                assert(b[i] == a[i]);
            }
            assert forall|i: int| 0 <= i < b.len() - 1 implies #[trigger] b[i].last() == '\n' by {
                assert(b[i] == a[i]);
            }
            assert(is_line_split(s, b));
        } else {
            let p = a.drop_last();
            let l = a.last();
            let b = p.push(l.push(c));
            assert(a =~= p.push(l));
            p.lemma_flatten_push(l);
            p.lemma_flatten_push(l.push(c));
            assert(a.flatten() == p.flatten() + l);
            assert(t == p.flatten() + l);
            assert(s =~= t.push(c));
            assert(b.flatten() == p.flatten() + l.push(c));
            assert(b.flatten() =~= s);
            assert forall|i: int| 0 <= i < b.len() implies #[trigger] b[i].len() > 0 by {
                if i < p.len() {
                    assert(b[i] == a[i]);
                }
            }
            assert forall|i: int, j: int| 0 <= i < b.len() && 0 <= j < b[i].len() - 1 implies #[trigger] b[i][j]
                != '\n' by {
                if i < p.len() {
                    assert(b[i] == a[i]);
                } else {
                    assert(b[i] == l.push(c));
                    assert(l[j] == a[a.len() - 1][j]);
                }
            }
            assert forall|i: int| 0 <= i < b.len() - 1 implies #[trigger] b[i].last() == '\n' by {
                assert(b[i] == a[i]);
            }
            assert(is_line_split(s, b));
        }
    }
}

/// Compares two strings character by character.
pub fn str_equals(a: &str, b: &str) -> (r: bool)
    ensures
        r == (a@ == b@),
{
    let n = a.unicode_len();
    let m = b.unicode_len();
    if n != m {
        return false;
    }
    let mut i: usize = 0;
    while i < n
        invariant
            n == a@.len(),
            m == b@.len(),
            n == m,
            i <= n,
            forall|j: int| 0 <= j < i ==> a@[j] == b@[j],
        decreases n - i,
    {
        if a.get_char(i) != b.get_char(i) {
            return false;
        }
        i = i + 1;
    }
    assert(a@ =~= b@);
    true
}

} // verus!
