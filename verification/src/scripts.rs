//! The text form of a `Scripts` file.
//!
//! Each script becomes a header line `<!-- SCRIPT: {number}, {name} -->`
//! followed by its code, with Windows line endings turned into line feeds
//! and a final line feed added where the code lacks one. Reading the text
//! back cuts it at the header lines.
use vstd::prelude::*;
use crate::text::{
    chars_of, each_line, ends_with, has_prefix, has_suffix, i32_text, is_line_split, lemma_decimal,
    lemma_line_split_concat, lemma_line_split_exists, lemma_lines_of, lines_of, law_i32_text_parses_back,
    decimal, is_digit,
    parse_i32, parse_i32_spec, push_i32, starts_with, string_of, string_push, views_of,
};

verus! {

broadcast use vstd::seq_lib::group_seq_properties;

/// Magic numbers, contents and names of the scripts of a `Scripts` file.
pub struct Scripts {
    pub numbers: Vec<i32>,
    pub contents: Vec<String>,
    pub names: Vec<String>,
}

impl Scripts {
    /// Holds the three lists as given.
    pub fn new(numbers: Vec<i32>, contents: Vec<String>, names: Vec<String>) -> (r: Scripts)
        ensures
            r.numbers@ == numbers@,
            r.contents@ == contents@,
            r.names@ == names@,
    {
        Scripts { numbers, contents, names }
    }
}

/// Whether `data` is a zlib stream that `flate2`'s `ZlibDecoder` inflates
/// without error.
pub uninterp spec fn zlib_inflates(data: Seq<u8>) -> bool;

/// The bytes that `flate2`'s `ZlibDecoder` inflates the zlib stream `data`
/// to.
pub uninterp spec fn zlib_inflated(data: Seq<u8>) -> Seq<u8>;

/// The text that `String::from_utf8_lossy` makes of `bytes`: each invalid
/// sequence becomes U+FFFD.
pub uninterp spec fn utf8_lossy_text(bytes: Seq<u8>) -> Seq<char>;

/// `flate2::read::ZlibDecoder` read to its end. Claimed: it fails exactly on
/// the data that `zlib_inflates` refuses, and otherwise gives
/// `zlib_inflated` of the data; both depend on the data alone.
#[verifier::external_body]
fn zlib_inflate(data: &[u8]) -> (r: Result<Vec<u8>, std::io::Error>)
    ensures
        r is Ok <==> zlib_inflates(data@),
        r is Ok ==> r->Ok_0@ == zlib_inflated(data@),
{
    let mut out = Vec::new();
    match std::io::Read::read_to_end(&mut flate2::read::ZlibDecoder::new(data), &mut out) {
        Ok(_) => Ok(out),
        Err(e) => Err(e),
    }
}

/// `String::from_utf8_lossy`, made an owned string. Claimed: its text is
/// `utf8_lossy_text` of the bytes, which is the decoded text when the
/// bytes are valid UTF-8, as std documents.
#[verifier::external_body]
fn utf8_lossy(bytes: &[u8]) -> (r: String)
    ensures
        r@ == utf8_lossy_text(bytes@),
        vstd::utf8::valid_utf8(bytes@) ==> r@ == vstd::utf8::decode_utf8(bytes@),
{
    String::from_utf8_lossy(bytes).into_owned()
}

/// One script as a `Scripts` data file stores it: its magic number, its
/// name, and its zlib-compressed code.
pub struct ScriptEntry {
    pub number: i64,
    pub name: Vec<u8>,
    pub code: Vec<u8>,
}

/// A stored script as plain values: number, name bytes, code bytes.
pub open spec fn entry_view(e: ScriptEntry) -> (i64, Seq<u8>, Seq<u8>) {
    (e.number, e.name@, e.code@)
}

/// Stored scripts as plain values.
pub open spec fn entries_view(es: Seq<ScriptEntry>) -> Seq<(i64, Seq<u8>, Seq<u8>)> {
    es.map_values(|e: ScriptEntry| entry_view(e))
}

/// A stored script can be decoded: its number fits in an `i32` and its code
/// inflates.
pub open spec fn entry_decodes(e: (i64, Seq<u8>, Seq<u8>)) -> bool {
    i32::MIN <= e.0 <= i32::MAX && zlib_inflates(e.2)
}

/// Every one of the stored scripts `es` can be decoded.
pub open spec fn all_decode(es: Seq<(i64, Seq<u8>, Seq<u8>)>) -> bool {
    forall|i: int| 0 <= i < es.len() ==> entry_decodes(#[trigger] es[i])
}

/// Decodes stored scripts: numbers as they are, names and inflated code as
/// UTF-8 text (invalid sequences replaced). `None` when a number does not fit
/// in an `i32` or some code does not inflate.
pub fn decode_script_entries(entries: &Vec<ScriptEntry>) -> (r: Option<Scripts>)
    ensures
        r is Some <==> all_decode(entries_view(entries@)),
        r is Some ==> r->0.numbers@.len() == entries@.len(),
        r is Some ==> r->0.names@.len() == entries@.len(),
        r is Some ==> r->0.contents@.len() == entries@.len(),
        r is Some ==> forall|i: int| 0 <= i < entries@.len() ==> r->0.numbers@[i] == (#[trigger] entries@[i]).number,
        r is Some ==> forall|i: int| 0 <= i < entries@.len() ==> r->0.names@[i]@ == utf8_lossy_text((#[trigger] entries@[i]).name@),
        r is Some ==> forall|i: int| 0 <= i < entries@.len() ==> r->0.contents@[i]@ == utf8_lossy_text(
            zlib_inflated((#[trigger] entries@[i]).code@),
        ),
{
    let n = entries.len();
    let mut numbers: Vec<i32> = Vec::new();
    let mut names: Vec<String> = Vec::new();
    let mut contents: Vec<String> = Vec::new();
    let mut i: usize = 0;
    while i < n
        invariant
            n == entries@.len(),
            i <= n,
            numbers@.len() == i,
            names@.len() == i,
            contents@.len() == i,
            forall|j: int| 0 <= j < i ==> entry_decodes(#[trigger] entry_view(entries@[j])),
            forall|j: int| 0 <= j < i ==> {
                &&& numbers@[j] == #[trigger] entries@[j].number
                &&& names@[j]@ == utf8_lossy_text(entries@[j].name@)
                &&& contents@[j]@ == utf8_lossy_text(zlib_inflated(entries@[j].code@))
            },
        decreases n - i,
    {
        let e = &entries[i];
        if e.number < -2147483648i64 || e.number > 2147483647i64 {
            assert(!entry_decodes(entries_view(entries@)[i as int]));
            return None;
        }
        let code = match zlib_inflate(e.code.as_slice()) {
            Ok(c) => c,
            Err(_) => {
                assert(!entry_decodes(entries_view(entries@)[i as int]));
                return None;
            },
        };
        let name = utf8_lossy(e.name.as_slice());
        let text = utf8_lossy(code.as_slice());
        let ghost (pn, pa, pc) = (numbers@, names@, contents@);
        numbers.push(e.number as i32);
        names.push(name);
        contents.push(text);
        assert forall|j: int| 0 <= j < i + 1 implies {
            &&& numbers@[j] == #[trigger] entries@[j].number
            &&& names@[j]@ == utf8_lossy_text(entries@[j].name@)
            &&& contents@[j]@ == utf8_lossy_text(zlib_inflated(entries@[j].code@))
        } by {
            if j < i {
                assert(numbers@[j] == pn[j] && names@[j] == pa[j] && contents@[j] == pc[j]);
            }
        }
        i = i + 1;
    }
    assert(all_decode(entries_view(entries@))) by {
        assert forall|j: int| 0 <= j < n implies entry_decodes(#[trigger] entries_view(entries@)[j]) by {
            assert(entries_view(entries@)[j] == entry_view(entries@[j]));
        }
    }
    let r = Scripts::new(numbers, contents, names);
    assert forall|j: int| #![trigger entries@[j]] 0 <= j < entries@.len() implies {
        &&& r.numbers@[j] == entries@[j].number
        &&& r.names@[j]@ == utf8_lossy_text(entries@[j].name@)
        &&& r.contents@[j]@ == utf8_lossy_text(zlib_inflated(entries@[j].code@))
    } by {
        assert(numbers@[j] == entries@[j].number);
        assert(r.names@[j] == names@[j]);
        assert(r.contents@[j] == contents@[j]);
        assert(names@[j]@ == utf8_lossy_text(entries@[j].name@));
        assert(contents@[j]@ == utf8_lossy_text(zlib_inflated(entries@[j].code@)));
    }
    Some(r)
}

/// The text form of stored scripts once decoded: numbers as they are, names
/// and inflated code read as UTF-8 with invalid sequences replaced.
pub open spec fn decoded_scripts_text(entries: Seq<(i64, Seq<u8>, Seq<u8>)>) -> Seq<char> {
    scripts_text(
        entries.map_values(|e: (i64, Seq<u8>, Seq<u8>)| e.0 as i32),
        entries.map_values(|e: (i64, Seq<u8>, Seq<u8>)| utf8_lossy_text(e.1)),
        entries.map_values(|e: (i64, Seq<u8>, Seq<u8>)| utf8_lossy_text(zlib_inflated(e.2))),
    )
}

/// The text form of the stored scripts `entries`, when they decode.
pub fn script_entries_text(entries: &Vec<ScriptEntry>) -> (r: Option<String>)
    ensures
        r is Some <==> all_decode(entries_view(entries@)),
        r matches Some(t) ==> t@ == decoded_scripts_text(entries_view(entries@)),
{
    match decode_script_entries(entries) {
        Some(scripts) => {
            let text = scripts_to_text(&scripts);
            proof {
                let es = entries_view(entries@);
                assert(scripts.numbers@ =~= es.map_values(|e: (i64, Seq<u8>, Seq<u8>)| e.0 as i32));
                assert(views_of(scripts.names@) =~= es.map_values(
                    |e: (i64, Seq<u8>, Seq<u8>)| utf8_lossy_text(e.1),
                ));
                assert(views_of(scripts.contents@) =~= es.map_values(
                    |e: (i64, Seq<u8>, Seq<u8>)| utf8_lossy_text(zlib_inflated(e.2)),
                ));
            }
            Some(text)
        },
        None => None,
    }
}

/// `<!-- SCRIPT: `, which opens a header line.
pub open spec fn header_open() -> Seq<char> {
    seq!['<', '!', '-', '-', ' ', 'S', 'C', 'R', 'I', 'P', 'T', ':', ' ']
}

/// `<!-- SCRIPT`, by which a line is recognised as a header.
pub open spec fn header_mark() -> Seq<char> {
    header_open().take(11)
}

/// ` -->` and a line feed, which close a header line.
pub open spec fn header_close() -> Seq<char> {
    seq![' ', '-', '-', '>', '\n']
}

/// `, `, between the number and the name.
pub open spec fn header_separator() -> Seq<char> {
    seq![',', ' ']
}

/// The header line of a script.
pub open spec fn script_header(number: i32, name: Seq<char>) -> Seq<char> {
    header_open() + i32_text(number) + header_separator() + name + header_close()
}

/// The character at `i` survives the line-ending conversion: it is not a
/// carriage return directly followed by a line feed.
pub open spec fn kept_char(s: Seq<char>, i: int) -> bool {
    !(s[i] == '\r' && i + 1 < s.len() && s[i + 1] == '\n')
}

/// The first `k` characters of `s` after the line-ending conversion.
pub open spec fn crlf_prefix(s: Seq<char>, k: int) -> Seq<char>
    decreases k,
{
    if k <= 0 {
        Seq::empty()
    } else {
        crlf_prefix(s, k - 1) + if kept_char(s, k - 1) {
            seq![s[k - 1]]
        } else {
            Seq::empty()
        }
    }
}

/// `s` with every `\r\n` replaced by `\n`.
pub open spec fn crlf_to_lf(s: Seq<char>) -> Seq<char> {
    crlf_prefix(s, s.len() as int)
}

/// `s` ends with a line feed.
pub open spec fn ends_with_lf(s: Seq<char>) -> bool {
    s.len() > 0 && s.last() == '\n'
}

/// The text that stands for a script's code: its line endings converted,
/// and a line feed added where the code does not end with one.
pub open spec fn script_body(code: Seq<char>) -> Seq<char> {
    crlf_to_lf(code) + if ends_with_lf(code) {
        Seq::empty()
    } else {
        seq!['\n']
    }
}

/// The text of the first `k` scripts.
pub open spec fn scripts_text_upto(
    numbers: Seq<i32>,
    names: Seq<Seq<char>>,
    contents: Seq<Seq<char>>,
    k: int,
) -> Seq<char>
    decreases k,
{
    if k <= 0 {
        Seq::empty()
    } else {
        scripts_text_upto(numbers, names, contents, k - 1) + script_header(numbers[k - 1], names[k - 1])
            + script_body(contents[k - 1])
    }
}

/// How many scripts the text holds: as many as the shortest of the lists.
pub open spec fn script_count(numbers: Seq<i32>, names: Seq<Seq<char>>, contents: Seq<Seq<char>>) -> int {
    let a = if numbers.len() <= names.len() { numbers.len() } else { names.len() };
    if a <= contents.len() { a as int } else { contents.len() as int }
}

/// The text of all scripts, one after the other.
pub open spec fn scripts_text(numbers: Seq<i32>, names: Seq<Seq<char>>, contents: Seq<Seq<char>>) -> Seq<char> {
    scripts_text_upto(numbers, names, contents, script_count(numbers, names, contents))
}

/// Appends `s` with every `\r\n` replaced by `\n`, then a line feed when `s`
/// does not end with one.
fn push_script_body(out: &mut String, s: &str)
    ensures
        final(out)@ == old(out)@ + script_body(s@),
{
    let cs = chars_of(s);
    let n = cs.len();
    let mut i: usize = 0;
    while i < n
        invariant
            n == cs@.len(),
            cs@ == s@,
            i <= n,
            out@ == old(out)@ + crlf_prefix(s@, i as int),
        decreases n - i,
    {
        let c = cs[i];
        if !(c == '\r' && i + 1 < n && cs[i + 1] == '\n') {
            string_push(out, c);
        }
        i = i + 1;
        assert(out@ =~= old(out)@ + crlf_prefix(s@, i as int));
    }
    if !(n > 0 && cs[n - 1] == '\n') {
        string_push(out, '\n');
    }
    assert(out@ =~= old(out)@ + script_body(s@));
}

/// The text form of `scripts`, as it is written to `Scripts.rb`.
pub fn scripts_to_text(scripts: &Scripts) -> (r: String)
    ensures
        r@ == scripts_text(scripts.numbers@, views_of(scripts.names@), views_of(scripts.contents@)),
{
    let ghost names = views_of(scripts.names@);
    let ghost contents = views_of(scripts.contents@);
    let a = if scripts.numbers.len() <= scripts.names.len() {
        scripts.numbers.len()
    } else {
        scripts.names.len()
    };
    let n = if a <= scripts.contents.len() { a } else { scripts.contents.len() };
    proof {
        reveal_strlit("<!-- SCRIPT: ");
        reveal_strlit(", ");
        reveal_strlit(" -->\n");
        assert("<!-- SCRIPT: "@ =~= header_open());
        assert(", "@ =~= header_separator());
        assert(" -->\n"@ =~= header_close());
    }
    let mut r = String::new();
    let mut i: usize = 0;
    while i < n
        invariant
            n == script_count(scripts.numbers@, names, contents),
            names == views_of(scripts.names@),
            contents == views_of(scripts.contents@),
            n <= scripts.numbers@.len(),
            n <= scripts.names@.len(),
            n <= scripts.contents@.len(),
            i <= n,
            r@ == scripts_text_upto(scripts.numbers@, names, contents, i as int),
            "<!-- SCRIPT: "@ == header_open(),
            ", "@ == header_separator(),
            " -->\n"@ == header_close(),
        decreases n - i,
    {
        let ghost before = r@;
        r.append("<!-- SCRIPT: ");
        push_i32(&mut r, scripts.numbers[i]);
        r.append(", ");
        r.append(scripts.names[i].as_str());
        r.append(" -->\n");
        push_script_body(&mut r, scripts.contents[i].as_str());
        i = i + 1;
        assert(r@ =~= scripts_text_upto(scripts.numbers@, names, contents, i as int));
    }
    r
}


/// The state of reading a scripts text line by line: the scripts found so
/// far, whether a header has been seen, and the code gathered since the
/// last header.
pub struct ScriptsParse {
    pub numbers: Seq<i32>,
    pub names: Seq<Seq<char>>,
    pub contents: Seq<Seq<char>>,
    pub open: bool,
    pub cur: Seq<char>,
}

/// Nothing read yet.
pub open spec fn parse_start() -> ScriptsParse {
    ScriptsParse {
        numbers: Seq::empty(),
        names: Seq::empty(),
        contents: Seq::empty(),
        open: false,
        cur: Seq::empty(),
    }
}

/// The index of the first comma in `s`, or its length when there is none.
pub open spec fn first_comma(s: Seq<char>) -> int
    decreases s.len(),
{
    if s.len() == 0 {
        0
    } else if s[0] == ',' {
        0
    } else {
        1 + first_comma(s.drop_first())
    }
}

/// A line that starts with `<!-- SCRIPT` is a header line.
pub open spec fn is_header_line(line: Seq<char>) -> bool {
    starts_with(line, header_mark())
}

/// What stands between `<!-- SCRIPT: ` and ` -->` on a header line.
pub open spec fn header_inner(line: Seq<char>) -> Seq<char> {
    line.subrange(13, line.len() - 5)
}

/// The number on a header line: the text before the first comma.
pub open spec fn header_number(line: Seq<char>) -> Option<i32> {
    let inner = header_inner(line);
    parse_i32_spec(inner.take(first_comma(inner)))
}

/// `s` without the one space that may open it.
pub open spec fn drop_leading_space(s: Seq<char>) -> Seq<char> {
    if s.len() > 0 && s[0] == ' ' {
        s.drop_first()
    } else {
        s
    }
}

/// The name on a header line: what follows the first comma, without the
/// space that separates it from the comma.
pub open spec fn header_name(line: Seq<char>) -> Seq<char> {
    let inner = header_inner(line);
    drop_leading_space(inner.skip(first_comma(inner) + 1))
}

/// A header line that can be read: it opens with `<!-- SCRIPT: `, closes
/// with ` -->` and a line feed, holds a comma between them, and an `i32`
/// before that comma.
pub open spec fn header_well_formed(line: Seq<char>) -> bool {
    &&& starts_with(line, header_open())
    &&& line.len() >= 18
    &&& ends_with(line, header_close())
    &&& first_comma(header_inner(line)) < header_inner(line).len()
    &&& header_number(line) is Some
}

/// Every header line of `text` can be read.
pub open spec fn scripts_text_well_formed(text: Seq<char>) -> bool {
    forall|i: int|
        0 <= i < lines_of(text).len() ==> #[trigger] is_header_line(lines_of(text)[i])
            ==> header_well_formed(lines_of(text)[i])
}

/// Reading one more line: a header line starts a new script, and closes the
/// code of the one before; any other line adds to the open script's code,
/// and is dropped before the first header.
pub open spec fn parse_step(st: ScriptsParse, line: Seq<char>) -> ScriptsParse {
    if is_header_line(line) {
        ScriptsParse {
            numbers: st.numbers.push(header_number(line)->0),
            names: st.names.push(header_name(line)),
            contents: if st.open {
                st.contents.push(st.cur)
            } else {
                st.contents
            },
            open: true,
            cur: Seq::empty(),
        }
    } else if st.open {
        ScriptsParse { cur: st.cur + line, ..st }
    } else {
        st
    }
}

/// Reading `lines`, one after the other, from the state `st`.
pub open spec fn parse_lines_from(st: ScriptsParse, lines: Seq<Seq<char>>) -> ScriptsParse
    decreases lines.len(),
{
    if lines.len() == 0 {
        st
    } else {
        parse_step(parse_lines_from(st, lines.drop_last()), lines.last())
    }
}

/// The code of the last script is kept when it is not empty.
pub open spec fn parse_finish(st: ScriptsParse) -> ScriptsParse {
    if st.open && st.cur.len() > 0 {
        ScriptsParse { contents: st.contents.push(st.cur), cur: Seq::empty(), ..st }
    } else {
        st
    }
}

/// The scripts that a text holds.
pub open spec fn parse_scripts_text(text: Seq<char>) -> ScriptsParse {
    parse_finish(parse_lines_from(parse_start(), lines_of(text)))
}

/// The first `to - from` characters of `v` starting at `from`.
fn copy_range(v: &[char], from: usize, to: usize) -> (r: Vec<char>)
    requires
        from <= to <= v@.len(),
    ensures
        r@ == v@.subrange(from as int, to as int),
{
    let mut r: Vec<char> = Vec::new();
    let mut i = from;
    while i < to
        invariant
            from <= i <= to,
            to <= v@.len(),
            r@ == v@.subrange(from as int, i as int),
        decreases to - i,
    {
        r.push(v[i]);
        i = i + 1;
        assert(r@ =~= v@.subrange(from as int, i as int));
    }
    r
}

proof fn lemma_first_comma(s: Seq<char>, i: int)
    requires
        0 <= i <= s.len(),
        forall|j: int| 0 <= j < i ==> s[j] != ',',
        i == s.len() || s[i] == ',',
    ensures
        first_comma(s) == i,
    decreases i,
{
    if i > 0 {
        lemma_first_comma(s.drop_first(), i - 1);
    }
}

/// The index of the first comma, or the length when there is none.
fn find_comma(s: &[char]) -> (r: usize)
    ensures
        r == first_comma(s@),
{
    let n = s.len();
    let mut i: usize = 0;
    while i < n && s[i] != ','
        invariant
            n == s@.len(),
            i <= n,
            forall|j: int| 0 <= j < i ==> s@[j] != ',',
        decreases n - i,
    {
        i = i + 1;
    }
    proof {
        lemma_first_comma(s@, i as int);
    }
    i
}

/// Whether a line read as a header is well formed.
fn check_header(line: &[char]) -> (r: bool)
    ensures
        r == header_well_formed(line@),
{
    proof {
        reveal_strlit("<!-- SCRIPT: ");
        reveal_strlit(" -->\n");
        assert("<!-- SCRIPT: "@ =~= header_open());
        assert(" -->\n"@ =~= header_close());
    }
    let n = line.len();
    if !(has_prefix(line, "<!-- SCRIPT: ") && n >= 18 && has_suffix(line, " -->\n")) {
        return false;
    }
    let inner = copy_range(line, 13, n - 5);
    let k = find_comma(inner.as_slice());
    if k >= inner.len() {
        return false;
    }
    let number = copy_range(inner.as_slice(), 0, k);
    proof {
        assert(number@ =~= header_inner(line@).take(k as int));
    }
    parse_i32(number.as_slice()).is_some()
}

/// Whether every header line of `content` is well formed, so that
/// `text_to_scripts` can read it.
pub fn scripts_text_is_well_formed(content: &str) -> (r: bool)
    ensures
        r == scripts_text_well_formed(content@),
{
    let lines = each_line(content);
    proof {
        lemma_lines_of(content@, views_of(lines@));
    }
    let ghost ls = views_of(lines@);
    let mut i: usize = 0;
    while i < lines.len()
        invariant
            ls == views_of(lines@),
            ls == lines_of(content@),
            i <= lines@.len(),
            forall|j: int| 0 <= j < i ==> #[trigger] is_header_line(ls[j]) ==> header_well_formed(
                ls[j],
            ),
        decreases lines@.len() - i,
    {
        let cs = chars_of(lines[i].as_str());
        assert(cs@ == ls[i as int]);
        proof {
            reveal_strlit("<!-- SCRIPT");
            assert("<!-- SCRIPT"@ =~= header_mark());
        }
        if has_prefix(cs.as_slice(), "<!-- SCRIPT") && !check_header(cs.as_slice()) {
            proof {
                assert(is_header_line(lines_of(content@)[i as int]));
                assert(!header_well_formed(lines_of(content@)[i as int]));
            }
            return false;
        }
        i = i + 1;
    }
    true
}

/// Reads a scripts text back: numbers and names from the header lines, and
/// each script's code from the lines that follow its header.
pub fn text_to_scripts(content: &str) -> (r: Scripts)
    requires
        scripts_text_well_formed(content@),
    ensures
        r.numbers@ == parse_scripts_text(content@).numbers,
        views_of(r.names@) == parse_scripts_text(content@).names,
        views_of(r.contents@) == parse_scripts_text(content@).contents,
{
    let lines = each_line(content);
    proof {
        lemma_lines_of(content@, views_of(lines@));
        reveal_strlit("<!-- SCRIPT");
        assert("<!-- SCRIPT"@ =~= header_mark());
    }
    let ghost ls = views_of(lines@);
    let mut numbers: Vec<i32> = Vec::new();
    let mut names: Vec<String> = Vec::new();
    let mut contents: Vec<String> = Vec::new();
    let mut open = false;
    let mut cur = String::new();
    let mut i: usize = 0;
    while i < lines.len()
        invariant
            ls == views_of(lines@),
            ls == lines_of(content@),
            scripts_text_well_formed(content@),
            "<!-- SCRIPT"@ == header_mark(),
            i <= lines@.len(),
            ({
                let st = parse_lines_from(parse_start(), ls.take(i as int));
                &&& numbers@ == st.numbers
                &&& views_of(names@) == st.names
                &&& views_of(contents@) == st.contents
                &&& open == st.open
                &&& cur@ == st.cur
            }),
        decreases lines@.len() - i,
    {
        let ghost prev = parse_lines_from(parse_start(), ls.take(i as int));
        proof {
            assert(ls.take(i + 1).drop_last() =~= ls.take(i as int));
        }
        let line = lines[i].as_str();
        let cs = chars_of(line);
        assert(cs@ == ls[i as int]);
        if has_prefix(cs.as_slice(), "<!-- SCRIPT") {
            assert(is_header_line(ls[i as int]));
            assert(header_well_formed(ls[i as int]));
            let n = cs.len();
            let inner = copy_range(cs.as_slice(), 13, n - 5);
            let k = find_comma(inner.as_slice());
            let number_text = copy_range(inner.as_slice(), 0, k);
            let start = if k + 1 < inner.len() && inner[k + 1] == ' ' {
                k + 2
            } else {
                k + 1
            };
            let name_text = copy_range(inner.as_slice(), start, inner.len());
            proof {
                assert(number_text@ =~= header_inner(cs@).take(k as int));
                let after = header_inner(cs@).skip(k + 1);
                if start == k + 2 {
                    assert(name_text@ =~= after.drop_first());
                } else {
                    assert(name_text@ =~= after);
                }
                assert(name_text@ == header_name(cs@));
            }
            let number = parse_i32(number_text.as_slice());
            numbers.push(number.unwrap());
            names.push(string_of(name_text.as_slice()));
            if open {
                contents.push(cur);
            }
            cur = String::new();
            open = true;
        } else if open {
            cur.append(line);
        }
        i = i + 1;
        proof {
            let st = parse_lines_from(parse_start(), ls.take(i as int));
            assert(st == parse_step(prev, ls[i - 1]));
            assert(numbers@ =~= st.numbers);
            assert(views_of(names@) =~= st.names);
            assert(views_of(contents@) =~= st.contents);
        }
    }
    proof {
        assert(ls.take(lines@.len() as int) =~= ls);
    }
    if open && cur.unicode_len() > 0 {
        contents.push(cur);
        assert(views_of(contents@) =~= parse_scripts_text(content@).contents);
    }
    Scripts::new(numbers, contents, names)
}


/// Reading `x` and then `y` is reading `x + y`.
proof fn lemma_parse_concat(st: ScriptsParse, x: Seq<Seq<char>>, y: Seq<Seq<char>>)
    ensures
        parse_lines_from(st, x + y) == parse_lines_from(parse_lines_from(st, x), y),
    decreases y.len(),
{
    if y.len() == 0 {
        assert(x + y =~= x);
    } else {
        lemma_parse_concat(st, x, y.drop_last());
        assert((x + y).drop_last() =~= x + y.drop_last());
        assert((x + y).last() == y.last());
    }
}

/// Lines that are not headers add to the open script's code.
proof fn lemma_parse_code_lines(st: ScriptsParse, ls: Seq<Seq<char>>)
    requires
        st.open,
        forall|i: int| 0 <= i < ls.len() ==> !is_header_line(#[trigger] ls[i]),
    ensures
        parse_lines_from(st, ls) == (ScriptsParse { cur: st.cur + ls.flatten(), ..st }),
    decreases ls.len(),
{
    if ls.len() == 0 {
        assert(st.cur + ls.flatten() =~= st.cur);
    } else {
        let p = ls.drop_last();
        assert forall|i: int| 0 <= i < p.len() implies !is_header_line(#[trigger] p[i]) by {
            assert(p[i] == ls[i]);
        }
        lemma_parse_code_lines(st, p);
        assert(!is_header_line(ls[ls.len() - 1]));
        p.lemma_flatten_push(ls.last());
        assert(p.push(ls.last()) =~= ls);
        assert(st.cur + p.flatten() + ls.last() =~= st.cur + ls.flatten());
    }
}

/// The text of an `i32` holds only digits and a minus sign.
proof fn lemma_i32_text_chars(x: i32)
    ensures
        i32_text(x).len() > 0,
        forall|j: int| 0 <= j < i32_text(x).len() ==> #[trigger] i32_text(x)[j] != ','
            && i32_text(x)[j] != '\n',
{
    if x < 0 {
        let m = (-x) as nat;
        lemma_decimal(m);
        assert forall|j: int| 0 <= j < i32_text(x).len() implies #[trigger] i32_text(x)[j] != ','
            && i32_text(x)[j] != '\n' by {
            if j > 0 {
                assert(i32_text(x)[j] == decimal(m)[j - 1]);
                assert(is_digit(decimal(m)[j - 1]));
            }
        }
    } else {
        lemma_decimal(x as nat);
        assert forall|j: int| 0 <= j < i32_text(x).len() implies #[trigger] i32_text(x)[j] != ','
            && i32_text(x)[j] != '\n' by {
            assert(is_digit(decimal(x as nat)[j]));
        }
    }
}

proof fn lemma_first_comma_at(s: Seq<char>, i: int)
    requires
        0 <= i < s.len(),
        forall|j: int| 0 <= j < i ==> s[j] != ',',
        s[i] == ',',
    ensures
        first_comma(s) == i,
    decreases i,
{
    if i > 0 {
        lemma_first_comma_at(s.drop_first(), i - 1);
    }
}

/// A header line is one line, is read as a header, and gives back its
/// number and its name.
#[verifier::spinoff_prover]
#[verifier::rlimit(40)]
proof fn lemma_header_line(number: i32, name: Seq<char>)
    requires
        forall|j: int| 0 <= j < name.len() ==> #[trigger] name[j] != '\n',
    ensures
        is_line_split(script_header(number, name), seq![script_header(number, name)]),
        is_header_line(script_header(number, name)),
        header_well_formed(script_header(number, name)),
        header_number(script_header(number, name)) == Some(number),
        header_name(script_header(number, name)) == name,
{
    let h = script_header(number, name);
    let t = i32_text(number);
    lemma_i32_text_chars(number);
    law_i32_text_parses_back(number);
    let inner = t + header_separator() + name;
    assert(header_inner(h) =~= inner);
    lemma_first_comma_at(inner, t.len() as int);
    assert(inner.take(t.len() as int) =~= t);
    assert(inner.skip(t.len() as int + 1) =~= seq![' '] + name);
    assert((seq![' '] + name).drop_first() =~= name);
    assert(h.take(13) =~= header_open());
    assert(h.take(11) =~= header_mark());
    assert(h.skip(h.len() - 5) =~= header_close());
    let one = seq![h];
    one.lemma_flatten_one_element();
    assert forall|i: int, j: int| 0 <= i < one.len() && 0 <= j < one[i].len() - 1 implies #[trigger] one[i][j]
        != '\n' by {
        assert(one[i] == h);
        if j < 13 {
            assert(h[j] == header_open()[j]);
        } else if j < 13 + t.len() {
            assert(h[j] == t[j - 13]);
        } else if j < 15 + t.len() {
            assert(h[j] == header_separator()[j - 13 - t.len()]);
        } else if j < 15 + t.len() + name.len() {
            assert(h[j] == name[j - 15 - t.len()]);
        } else {
            assert(h[j] == header_close()[j - 15 - t.len() - name.len()]);
        }
    }
}

/// The code text of a script is not empty and ends with a line feed.
proof fn lemma_script_body_ends(code: Seq<char>)
    ensures
        script_body(code).len() > 0,
        script_body(code).last() == '\n',
{
    if ends_with_lf(code) {
        let n = code.len() as int;
        assert(kept_char(code, n - 1));
        assert(crlf_prefix(code, n) == crlf_prefix(code, n - 1) + seq![code[n - 1]]);
        assert(script_body(code) =~= crlf_to_lf(code));
    }
}

proof fn lemma_crlf_prefix_left(s: Seq<char>, t: Seq<char>, k: int)
    requires
        0 <= k <= s.len(),
        s.len() == 0 || s.last() != '\r',
    ensures
        crlf_prefix(s + t, k) == crlf_prefix(s, k),
    decreases k,
{
    if k > 0 {
        lemma_crlf_prefix_left(s, t, k - 1);
        let u = s + t;
        assert(u[k - 1] == s[k - 1]);
        if k < s.len() {
            assert(u[k] == s[k]);
        }
        assert(kept_char(u, k - 1) == kept_char(s, k - 1));
    }
}

proof fn lemma_crlf_prefix_right(s: Seq<char>, t: Seq<char>, m: int)
    requires
        0 <= m <= t.len(),
        s.len() == 0 || s.last() != '\r',
    ensures
        crlf_prefix(s + t, s.len() + m) == crlf_prefix(s, s.len() as int) + crlf_prefix(t, m),
    decreases m,
{
    let u = s + t;
    if m == 0 {
        lemma_crlf_prefix_left(s, t, s.len() as int);
        assert(crlf_prefix(t, 0) =~= Seq::<char>::empty());
        assert(crlf_prefix(s, s.len() as int) + Seq::<char>::empty() =~= crlf_prefix(s, s.len() as int));
    } else {
        lemma_crlf_prefix_right(s, t, m - 1);
        let i = s.len() + m - 1;
        assert(u[i] == t[m - 1]);
        if m < t.len() {
            assert(u[i + 1] == t[m]);
        }
        assert(kept_char(u, i) == kept_char(t, m - 1));
        assert(crlf_prefix(u, i + 1) == crlf_prefix(u, i) + if kept_char(u, i) {
            seq![u[i]]
        } else {
            Seq::empty()
        });
        assert(crlf_prefix(u, s.len() + m) =~= crlf_prefix(s, s.len() as int) + crlf_prefix(t, m));
    }
}

/// The line-ending conversion works piece by piece: converting two texts
/// one after the other is converting each, as long as the first does not
/// end with a carriage return (which the second could complete into a
/// `\r\n`). So every `\r\n`, not only the first, becomes `\n`.
pub proof fn law_crlf_to_lf_concat(s: Seq<char>, t: Seq<char>)
    requires
        s.len() == 0 || s.last() != '\r',
    ensures
        crlf_to_lf(s + t) == crlf_to_lf(s) + crlf_to_lf(t),
{
    lemma_crlf_prefix_right(s, t, t.len() as int);
}

/// A `\r\n` converts to `\n`, and any single character stays itself.
pub proof fn law_crlf_to_lf_pieces(c: char)
    ensures
        crlf_to_lf(seq!['\r', '\n']) == seq!['\n'],
        crlf_to_lf(seq![c]) == seq![c],
{
    let p = seq!['\r', '\n'];
    assert(!kept_char(p, 0));
    assert(kept_char(p, 1));
    assert(crlf_prefix(p, 0) =~= Seq::<char>::empty());
    assert(crlf_prefix(p, 1) =~= Seq::<char>::empty());
    assert(crlf_prefix(p, 2) =~= seq!['\n']);
    let q = seq![c];
    assert(kept_char(q, 0));
    assert(crlf_prefix(q, 0) =~= Seq::<char>::empty());
    assert(crlf_prefix(q, 1) =~= seq![c]);
}

proof fn lemma_crlf_prefix_no_cr(s: Seq<char>, k: int)
    requires
        0 <= k <= s.len(),
        forall|i: int| 0 <= i < s.len() && #[trigger] s[i] == '\r' ==> i + 1 < s.len() && s[i + 1] == '\n',
    ensures
        forall|j: int| 0 <= j < crlf_prefix(s, k).len() ==> #[trigger] crlf_prefix(s, k)[j] != '\r',
    decreases k,
{
    if k > 0 {
        lemma_crlf_prefix_no_cr(s, k - 1);
        if kept_char(s, k - 1) {
            assert(s[k - 1] != '\r');
        }
        let a = crlf_prefix(s, k - 1);
        assert forall|j: int| 0 <= j < crlf_prefix(s, k).len() implies #[trigger] crlf_prefix(s, k)[j] != '\r' by {
            if j < a.len() {
                assert(crlf_prefix(s, k)[j] == a[j]);
            }
        }
    }
}

/// The code part of a script's text ends with a line feed, and holds no
/// carriage return when every carriage return of the code opens a
/// `\r\n`: Windows line endings are all gone.
pub proof fn law_script_body_line_endings(code: Seq<char>)
    ensures
        script_body(code).len() > 0,
        script_body(code).last() == '\n',
        (forall|i: int| 0 <= i < code.len() && #[trigger] code[i] == '\r' ==> i + 1 < code.len() && code[i + 1]
            == '\n') ==> forall|j: int| 0 <= j < script_body(code).len() ==> #[trigger] script_body(code)[j] != '\r',
{
    lemma_script_body_ends(code);
    if forall|i: int| 0 <= i < code.len() && #[trigger] code[i] == '\r' ==> i + 1 < code.len() && code[i + 1] == '\n' {
        lemma_crlf_prefix_no_cr(code, code.len() as int);
        let a = crlf_to_lf(code);
        assert forall|j: int| 0 <= j < script_body(code).len() implies #[trigger] script_body(code)[j] != '\r' by {
            if j < a.len() {
                assert(script_body(code)[j] == a[j]);
            }
        }
    }
}

/// The lines of one script's text: its header, then the lines of its code.
pub open spec fn block_lines(number: i32, name: Seq<char>, code: Seq<char>) -> Seq<Seq<char>> {
    seq![script_header(number, name)] + lines_of(script_body(code))
}

/// Nothing but the header is read as a header in a script's text, and the
/// text can be read.
pub open spec fn script_readable(name: Seq<char>, code: Seq<char>) -> bool {
    &&& forall|j: int| 0 <= j < name.len() ==> #[trigger] name[j] != '\n'
    &&& forall|j: int|
        0 <= j < lines_of(script_body(code)).len() ==> !is_header_line(
            #[trigger] lines_of(script_body(code))[j],
        )
}

/// Every header among `ls` is well formed.
pub open spec fn headers_well_formed(ls: Seq<Seq<char>>) -> bool {
    forall|i: int| 0 <= i < ls.len() ==> #[trigger] is_header_line(ls[i]) ==> header_well_formed(ls[i])
}

/// Adding one script's text after a text that ends a line adds the script's
/// block of lines after the lines of that text.
proof fn lemma_text_step_lines(prev: Seq<char>, n: i32, name: Seq<char>, code: Seq<char>)
    requires
        prev.len() == 0 || prev.last() == '\n',
        is_line_split(prev, lines_of(prev)),
        script_readable(name, code),
    ensures
        ({
            let text = prev + script_header(n, name) + script_body(code);
            &&& text.len() > 0 && text.last() == '\n'
            &&& is_line_split(text, lines_of(text))
            &&& lines_of(text) == lines_of(prev) + block_lines(n, name, code)
        }),
{
    let h = script_header(n, name);
    let body = script_body(code);
    let text = prev + h + body;
    assert(is_line_split(h, seq![h])) by {
        lemma_header_line(n, name);
    }
    lemma_script_body_ends(code);
    lemma_line_split_exists(body);
    let bl = lines_of(body);
    lemma_line_split_concat(h, seq![h], body, bl);
    assert(seq![h] + bl == block_lines(n, name, code));
    lemma_line_split_concat(prev, lines_of(prev), h + body, block_lines(n, name, code));
    assert(text =~= prev + (h + body));
    lemma_lines_of(text, lines_of(prev) + block_lines(n, name, code));
    assert(text.last() == body.last());
}

/// The headers of a script's block of lines can be read.
proof fn lemma_block_headers(a: Seq<Seq<char>>, n: i32, name: Seq<char>, code: Seq<char>)
    requires
        headers_well_formed(a),
        script_readable(name, code),
    ensures
        headers_well_formed(a + block_lines(n, name, code)),
{
    let h = script_header(n, name);
    let bl = lines_of(script_body(code));
    let ls = a + block_lines(n, name, code);
    lemma_header_line(n, name);
    assert forall|i: int| 0 <= i < ls.len() && #[trigger] is_header_line(ls[i]) implies header_well_formed(
        ls[i],
    ) by {
        if i < a.len() {
            assert(ls[i] == a[i]);
        } else if i == a.len() {
            assert(ls[i] == h);
        } else {
            assert(ls[i] == bl[i - a.len() - 1]);
        }
    }
}

/// Reading a script's block of lines records its number and name, closes
/// the code of the script before, and gathers the script's own code.
proof fn lemma_parse_block(st0: ScriptsParse, n: i32, name: Seq<char>, code: Seq<char>)
    requires
        script_readable(name, code),
    ensures
        parse_lines_from(st0, block_lines(n, name, code)) == (ScriptsParse {
            numbers: st0.numbers.push(n),
            names: st0.names.push(name),
            contents: if st0.open {
                st0.contents.push(st0.cur)
            } else {
                st0.contents
            },
            open: true,
            cur: script_body(code),
        }),
{
    let h = script_header(n, name);
    let body = script_body(code);
    lemma_header_line(n, name);
    lemma_line_split_exists(body);
    let bl = lines_of(body);
    lemma_parse_concat(st0, seq![h], bl);
    assert(parse_lines_from(st0, seq![h]) == parse_step(st0, h)) by {
        assert(seq![h].drop_last() =~= Seq::<Seq<char>>::empty());
        assert(parse_lines_from(st0, Seq::<Seq<char>>::empty()) == st0);
        assert(seq![h].last() == h);
    }
    let st1 = parse_step(st0, h);
    lemma_parse_code_lines(st1, bl);
    assert(Seq::<char>::empty() + body =~= body);
}

/// The text of the first `k` scripts splits into their blocks of lines,
/// and reading it gives the first `k` numbers, names and codes.
proof fn lemma_scripts_text_prefix(
    numbers: Seq<i32>,
    names: Seq<Seq<char>>,
    contents: Seq<Seq<char>>,
    k: int,
)
    requires
        0 <= k <= numbers.len(),
        numbers.len() == names.len(),
        names.len() == contents.len(),
        forall|i: int| 0 <= i < names.len() ==> script_readable(#[trigger] names[i], contents[i]),
    ensures
        ({
            let text = scripts_text_upto(numbers, names, contents, k);
            let st = parse_lines_from(parse_start(), lines_of(text));
            &&& text.len() == 0 || text.last() == '\n'
            &&& is_line_split(text, lines_of(text))
            &&& headers_well_formed(lines_of(text))
            &&& st.numbers == numbers.take(k)
            &&& st.names == names.take(k)
            &&& st.open == (k > 0)
            &&& k == 0 ==> st.contents.len() == 0 && st.cur.len() == 0
            &&& k > 0 ==> st.contents == Seq::new((k - 1) as nat, |i: int| script_body(contents[i]))
                && st.cur == script_body(contents[k - 1])
        }),
    decreases k,
{
    let text = scripts_text_upto(numbers, names, contents, k);
    if k == 0 {
        let e = Seq::<Seq<char>>::empty();
        assert(e.flatten() =~= text);
        assert(is_line_split(text, e));
        lemma_lines_of(text, e);
        assert(numbers.take(0) =~= Seq::<i32>::empty());
        assert(names.take(0) =~= Seq::<Seq<char>>::empty());
    } else {
        lemma_scripts_text_prefix(numbers, names, contents, k - 1);
        let prev = scripts_text_upto(numbers, names, contents, k - 1);
        let a = lines_of(prev);
        let n = numbers[k - 1];
        let name = names[k - 1];
        let code = contents[k - 1];
        assert(script_readable(name, code));
        lemma_text_step_lines(prev, n, name, code);
        lemma_block_headers(a, n, name, code);
        let st0 = parse_lines_from(parse_start(), a);
        lemma_parse_concat(parse_start(), a, block_lines(n, name, code));
        lemma_parse_block(st0, n, name, code);
        let st = parse_lines_from(parse_start(), lines_of(text));
        assert(st.numbers =~= numbers.take(k));
        assert(st.names =~= names.take(k));
        assert(st.contents =~= Seq::new((k - 1) as nat, |i: int| script_body(contents[i])));
    }
}

/// Reading lines keeps count: every header adds a number, and every script
/// but the open one has its code.
proof fn lemma_parse_counts(lines: Seq<Seq<char>>)
    ensures
        ({
            let st = parse_lines_from(parse_start(), lines);
            &&& st.numbers.len() == st.names.len()
            &&& st.contents.len() + (if st.open { 1int } else { 0int }) == st.numbers.len()
        }),
    decreases lines.len(),
{
    if lines.len() > 0 {
        lemma_parse_counts(lines.drop_last());
    }
}

/// The lines of a text made of a text that ends a line, a header line, and
/// more text: those of each part, one after the other.
proof fn lemma_header_text_lines(pre: Seq<char>, number: i32, name: Seq<char>, tail: Seq<char>)
    requires
        pre.len() == 0 || pre.last() == '\n',
        forall|j: int| 0 <= j < name.len() ==> #[trigger] name[j] != '\n',
    ensures
        lines_of(pre + script_header(number, name) + tail) == (lines_of(pre) + seq![script_header(number, name)])
            + lines_of(tail),
{
    let h = script_header(number, name);
    let text = pre + h + tail;
    let a = lines_of(pre);
    let b = lines_of(tail);
    assert(is_line_split(h, seq![h])) by {
        lemma_header_line(number, name);
    }
    assert(h.last() == '\n') by {
        assert(h[h.len() - 1] == header_close()[4]);
    }
    assert(is_line_split(h + tail, seq![h] + b)) by {
        lemma_line_split_exists(tail);
        lemma_line_split_concat(h, seq![h], tail, b);
    }
    assert(is_line_split(pre + (h + tail), a + (seq![h] + b))) by {
        lemma_line_split_exists(pre);
        lemma_line_split_concat(pre, a, h + tail, seq![h] + b);
    }
    assert(text =~= pre + (h + tail));
    assert(a + (seq![h] + b) =~= (a + seq![h]) + b);
    lemma_lines_of(text, (a + seq![h]) + b);
}

/// Reading back a text whose last header line is followed by non-empty
/// text that holds no header: there are as many codes as headers, and the
/// last script has the last header's number and name and, as its code,
/// exactly that text, whether or not it ends with a line feed. The scripts
/// before it are those of the text before the header.
pub proof fn law_last_script_read_back(pre: Seq<char>, number: i32, name: Seq<char>, tail: Seq<char>)
    requires
        pre.len() == 0 || pre.last() == '\n',
        forall|j: int| 0 <= j < name.len() ==> #[trigger] name[j] != '\n',
        tail.len() > 0,
        forall|i: int| 0 <= i < lines_of(tail).len() ==> !is_header_line(#[trigger] lines_of(tail)[i]),
    ensures
        ({
            let st = parse_scripts_text(pre + script_header(number, name) + tail);
            &&& st.numbers.len() == st.contents.len()
            &&& st.names.len() == st.contents.len()
            &&& st.numbers == parse_scripts_text(pre).numbers.push(number)
            &&& st.names == parse_scripts_text(pre).names.push(name)
            &&& st.contents.last() == tail
        }),
{
    let h = script_header(number, name);
    let text = pre + h + tail;
    let a = lines_of(pre);
    let b = lines_of(tail);
    assert(is_header_line(h) && header_number(h) == Some(number) && header_name(h) == name) by {
        lemma_header_line(number, name);
    }
    lemma_header_text_lines(pre, number, name, tail);
    let st0 = parse_lines_from(parse_start(), a);
    lemma_parse_counts(a);
    assert(parse_lines_from(parse_start(), a + seq![h]) == parse_step(st0, h)) by {
        lemma_parse_concat(parse_start(), a, seq![h]);
        assert(seq![h].drop_last() =~= Seq::<Seq<char>>::empty());
        assert(seq![h].last() == h);
    }
    let st1 = parse_step(st0, h);
    assert(parse_lines_from(parse_start(), lines_of(text)) == (ScriptsParse { cur: tail, ..st1 })) by {
        lemma_parse_concat(parse_start(), a + seq![h], b);
        lemma_line_split_exists(tail);
        assert forall|i: int| 0 <= i < b.len() implies !is_header_line(#[trigger] b[i]) by {}
        lemma_parse_code_lines(st1, b);
        assert(Seq::<char>::empty() + b.flatten() =~= tail);
    }
}

/// Reading back the text of scripts gives their numbers, their names, and
/// their code as the text holds it: with `\r\n` turned into `\n` and a final line
/// feed. This holds when there are as many numbers as names and codes, no
/// name holds a line feed, and no line of any code reads as a header.
pub proof fn law_scripts_text_reads_back(
    numbers: Seq<i32>,
    names: Seq<Seq<char>>,
    contents: Seq<Seq<char>>,
)
    requires
        numbers.len() == names.len(),
        names.len() == contents.len(),
        forall|i: int| 0 <= i < names.len() ==> script_readable(#[trigger] names[i], contents[i]),
    ensures
        scripts_text_well_formed(scripts_text(numbers, names, contents)),
        parse_scripts_text(scripts_text(numbers, names, contents)).numbers == numbers,
        parse_scripts_text(scripts_text(numbers, names, contents)).names == names,
        parse_scripts_text(scripts_text(numbers, names, contents)).contents == Seq::new(
            contents.len(),
            |i: int| script_body(contents[i]),
        ),
{
    let k = numbers.len() as int;
    assert(script_count(numbers, names, contents) == k);
    lemma_scripts_text_prefix(numbers, names, contents, k);
    assert(numbers.take(k) =~= numbers);
    assert(names.take(k) =~= names);
    let text = scripts_text(numbers, names, contents);
    let st = parse_lines_from(parse_start(), lines_of(text));
    if k > 0 {
        lemma_script_body_ends(contents[k - 1]);
        assert(st.contents.push(st.cur) =~= Seq::new(contents.len(), |i: int| script_body(contents[i])));
    } else {
        assert(st.contents =~= Seq::new(contents.len(), |i: int| script_body(contents[i])));
    }
}

} // verus!
