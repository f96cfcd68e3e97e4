use vstd::prelude::*;
use vstd::string::*;

verus! {

/// The pieces of `list` written one after another, with `sep` between two
/// neighbours.
pub open spec fn seq_join(list: Seq<Seq<char>>, sep: Seq<char>) -> Seq<char>
    decreases list.len(),
{
    if list.len() == 0 {
        Seq::empty()
    } else if list.len() == 1 {
        list[0]
    } else {
        seq_join(list.drop_last(), sep) + sep + list.last()
    }
}

/// Joins the strings of `list`, putting `sep` between two neighbours.
pub fn join_strings(list: &Vec<String>, sep: &str) -> (res: String)
    ensures
        res@ == seq_join(string_views(list@), sep@),
{
    let mut res = String::new();
    let ghost views = string_views(list@);
    let n = list.len();
    let mut i: usize = 0;
    while i < n
        invariant
            n == list.len(),
            i <= n,
            views == string_views(list@),
            res@ == seq_join(views.take(i as int), sep@),
        decreases n - i,
    {
        if i != 0 {
            res.append(sep);
        }
        res.append(list[i].as_str());
        assert(views.take(i + 1).drop_last() =~= views.take(i as int));
        i = i + 1;
    }
    assert(views.take(n as int) =~= views);
    res
}

} // verus!

verus! {

/// Whether `c` has the Unicode `White_Space` property, the set of characters
/// that `char::is_whitespace` and `str::trim` treat as whitespace.
pub open spec fn is_unicode_whitespace(c: char) -> bool {
    let u = c as u32;
    ||| 0x09 <= u <= 0x0D
    ||| u == 0x20
    ||| u == 0x85
    ||| u == 0xA0
    ||| u == 0x1680
    ||| 0x2000 <= u <= 0x200A
    ||| u == 0x2028
    ||| u == 0x2029
    ||| u == 0x202F
    ||| u == 0x205F
    ||| u == 0x3000
}

/// `s` without its leading whitespace.
pub open spec fn trim_start_spec(s: Seq<char>) -> Seq<char>
    decreases s.len(),
{
    if s.len() > 0 && is_unicode_whitespace(s[0]) {
        trim_start_spec(s.drop_first())
    } else {
        s
    }
}

/// `s` without its trailing whitespace.
pub open spec fn trim_end_spec(s: Seq<char>) -> Seq<char>
    decreases s.len(),
{
    if s.len() > 0 && is_unicode_whitespace(s.last()) {
        trim_end_spec(s.drop_last())
    } else {
        s
    }
}

/// `s` without its leading and trailing whitespace.
pub open spec fn trim_spec(s: Seq<char>) -> Seq<char> {
    trim_end_spec(trim_start_spec(s))
}

/// Whether `c` has the Unicode `White_Space` property.
fn is_whitespace_char(c: char) -> (res: bool)
    ensures
        res == is_unicode_whitespace(c),
{
    let u = c as u32;
    (0x09 <= u && u <= 0x0D) || u == 0x20 || u == 0x85 || u == 0xA0 || u == 0x1680 || (0x2000 <= u
        && u <= 0x200A) || u == 0x2028 || u == 0x2029 || u == 0x202F || u == 0x205F || u == 0x3000
}

proof fn lemma_trim_start_skip(s: Seq<char>, k: int)
    requires
        0 <= k <= s.len(),
        forall|i: int| 0 <= i < k ==> is_unicode_whitespace(#[trigger] s[i]),
    ensures
        trim_start_spec(s) == trim_start_spec(s.skip(k)),
    decreases k,
{
    if k > 0 {
        assert(s.skip(1) =~= s.drop_first());
        lemma_trim_start_skip(s.drop_first(), k - 1);
        assert(s.drop_first().skip(k - 1) =~= s.skip(k));
    } else {
        assert(s.skip(0) =~= s);
    }
}

proof fn lemma_trim_end_take(s: Seq<char>, k: int)
    requires
        0 <= k <= s.len(),
        forall|i: int| k <= i < s.len() ==> is_unicode_whitespace(#[trigger] s[i]),
    ensures
        trim_end_spec(s) == trim_end_spec(s.take(k)),
    decreases s.len() - k,
{
    if k < s.len() {
        assert(s.take(s.len() - 1) =~= s.drop_last());
        lemma_trim_end_take(s.drop_last(), k);
        assert(s.drop_last().take(k) =~= s.take(k));
    } else {
        assert(s.take(k) =~= s);
    }
}

/// `s` without its leading and trailing whitespace, as `str::trim` gives it.
pub fn trim_to_string(s: &str) -> (res: String)
    ensures
        res@ == trim_spec(s@),
{
    let chars = chars_of(s);
    let n = chars.len();
    let mut start: usize = 0;
    while start < n && is_whitespace_char(chars[start])
        invariant
            n == chars.len(),
            start <= n,
            forall|i: int| 0 <= i < start ==> is_unicode_whitespace(#[trigger] chars@[i]),
        decreases n - start,
    {
        start = start + 1;
    }
    proof {
        lemma_trim_start_skip(chars@, start as int);
    }
    let ghost rest = chars@.skip(start as int);
    assert(trim_start_spec(rest) == rest);
    let mut end: usize = n;
    while end > start && is_whitespace_char(chars[end - 1])
        invariant
            n == chars.len(),
            start <= end <= n,
            forall|i: int| end <= i < n ==> is_unicode_whitespace(#[trigger] chars@[i]),
        decreases end,
    {
        end = end - 1;
    }
    proof {
        assert forall|i: int| end - start <= i < rest.len() implies is_unicode_whitespace(
            #[trigger] rest[i],
        ) by {
            assert(rest[i] == chars@[i + start]);
        }
        lemma_trim_end_take(rest, end - start);
        assert(rest.take(end - start) =~= chars@.subrange(start as int, end as int));
    }
    let ghost kept = chars@.subrange(start as int, end as int);
    assert(trim_end_spec(kept) == kept) by {
        if kept.len() > 0 {
            assert(kept.last() == chars@[end - 1]);
        }
    }
    let mut out: Vec<char> = Vec::new();
    let mut i: usize = start;
    while i < end
        invariant
            start <= i <= end <= n,
            n == chars.len(),
            out@ =~= chars@.subrange(start as int, i as int),
        decreases end - i,
    {
        out.push(chars[i]);
        i = i + 1;
    }
    string_from_chars(&out)
}

/// The pieces, each trimmed, with the pieces that are empty after trimming
/// left out; the order is kept.
pub open spec fn trimmed_nonempty(pieces: Seq<Seq<char>>) -> Seq<Seq<char>>
    decreases pieces.len(),
{
    if pieces.len() == 0 {
        Seq::empty()
    } else {
        let rest = trimmed_nonempty(pieces.drop_last());
        let t = trim_spec(pieces.last());
        if t.len() > 0 {
            rest.push(t)
        } else {
            rest
        }
    }
}

/// Trimming and dropping blank pieces works piece by piece: on two runs of
/// pieces one after another it gives the results of each, one after another.
pub proof fn lemma_trimmed_nonempty_concat(p1: Seq<Seq<char>>, p2: Seq<Seq<char>>)
    ensures
        trimmed_nonempty(p1 + p2) == trimmed_nonempty(p1) + trimmed_nonempty(p2),
    decreases p2.len(),
{
    if p2.len() == 0 {
        assert(p1 + p2 =~= p1);
        assert(trimmed_nonempty(p1) + trimmed_nonempty(p2) =~= trimmed_nonempty(p1));
    } else {
        lemma_trimmed_nonempty_concat(p1, p2.drop_last());
        assert((p1 + p2).drop_last() =~= p1 + p2.drop_last());
        assert((p1 + p2).last() == p2.last());
        let t = trim_spec(p2.last());
        if t.len() > 0 {
            assert(trimmed_nonempty(p1) + trimmed_nonempty(p2.drop_last()).push(t) =~= (
            trimmed_nonempty(p1) + trimmed_nonempty(p2.drop_last())).push(t));
        }
    }
}

/// The views of a vector of strings.
pub open spec fn string_views(v: Seq<String>) -> Seq<Seq<char>> {
    v.map_values(|s: String| s@)
}

/// Trims every piece and keeps those that are not empty afterwards.
pub fn trim_and_drop_empty(pieces: &Vec<String>) -> (res: Vec<String>)
    ensures
        string_views(res@) == trimmed_nonempty(string_views(pieces@)),
{
    let mut res: Vec<String> = Vec::new();
    let ghost views = string_views(pieces@);
    let n = pieces.len();
    let mut i: usize = 0;
    while i < n
        invariant
            n == pieces.len(),
            i <= n,
            views == string_views(pieces@),
            string_views(res@) == trimmed_nonempty(views.take(i as int)),
        decreases n - i,
    {
        let t = trim_to_string(pieces[i].as_str());
        assert(views.take(i + 1).drop_last() =~= views.take(i as int));
        assert(views.take(i + 1).last() == pieces@[i as int]@);
        if !t.as_str().is_empty() {
            let ghost before = res@;
            res.push(t);
            assert(string_views(res@) =~= string_views(before).push(t@));
        }
        i = i + 1;
    }
    assert(views.take(n as int) =~= views);
    res
}

} // verus!

verus! {

/// `s` on one line: each `"\r\n"` pair, and each other `'\n'` or `'\r'`,
/// becomes a single space.
pub open spec fn single_line_spec(s: Seq<char>) -> Seq<char>
    decreases s.len(),
{
    if s.len() == 0 {
        Seq::empty()
    } else if s.len() >= 2 && s[0] == '\r' && s[1] == '\n' {
        seq![' '] + single_line_spec(s.subrange(2, s.len() as int))
    } else if s[0] == '\n' || s[0] == '\r' {
        seq![' '] + single_line_spec(s.drop_first())
    } else {
        seq![s[0]] + single_line_spec(s.drop_first())
    }
}

/// Collects characters into a `String` (`FromIterator<&char>` for `String`),
/// which keeps them in order.
#[verifier::external_body]
fn string_from_chars(chars: &Vec<char>) -> (res: String)
    ensures
        res@ == chars@,
{
    chars.iter().collect()
}

/// The characters of `text`, in order.
fn chars_of(text: &str) -> (res: Vec<char>)
    ensures
        res@ == text@,
{
    broadcast use vstd::string::group_string_axioms;

    let mut res: Vec<char> = Vec::new();
    for c in it: text.chars()
        invariant
            res@ == it.seq().take(it.index() as int),
    {
        res.push(c);
    }
    res
}

/// Puts `text` on one line: `"\r\n"`, `"\n"` and `"\r"` each become a
/// space.
pub fn single_line(text: &str) -> (res: String)
    ensures
        res@ == single_line_spec(text@),
{
    let chars = chars_of(text);
    let n = chars.len();
    let mut out: Vec<char> = Vec::new();
    let mut i: usize = 0;
    assert(chars@.skip(0) =~= chars@);
    assert(out@ + single_line_spec(chars@) =~= single_line_spec(chars@));
    while i < n
        invariant
            n == chars.len(),
            i <= n,
            out@ + single_line_spec(chars@.skip(i as int)) == single_line_spec(chars@),
        decreases n - i,
    {
        let ghost rest = chars@.skip(i as int);
        if i + 1 < n && chars[i] == '\r' && chars[i + 1] == '\n' {
            assert(rest.subrange(2, rest.len() as int) =~= chars@.skip(i + 2));
            let ghost before = out@;
            out.push(' ');
            assert(out@ + single_line_spec(chars@.skip(i + 2)) =~= before + single_line_spec(rest));
            i = i + 2;
        } else if chars[i] == '\n' || chars[i] == '\r' {
            assert(rest.drop_first() =~= chars@.skip(i + 1));
            let ghost before = out@;
            out.push(' ');
            assert(out@ + single_line_spec(chars@.skip(i + 1)) =~= before + single_line_spec(rest));
            i = i + 1;
        } else {
            assert(rest.drop_first() =~= chars@.skip(i + 1));
            let ghost before = out@;
            out.push(chars[i]);
            assert(out@ + single_line_spec(chars@.skip(i + 1)) =~= before + single_line_spec(rest));
            i = i + 1;
        }
    }
    assert(chars@.skip(n as int) =~= Seq::<char>::empty());
    assert(out@ + single_line_spec(Seq::<char>::empty()) =~= out@);
    string_from_chars(&out)
}

} // verus!
