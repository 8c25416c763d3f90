//! Text handling on sequences of characters: trimming, searching, splitting
//! and joining.
//!
//! Every executable function here is stated over the `Seq<char>` view of the
//! strings that it takes, so that the rest of the library can speak of texts
//! as mathematical sequences.
use vstd::prelude::*;
use vstd::string::StrSliceExecFns;
use vstd::string::StringExecFns;

verus! {

/// The texts of a list of strings.
pub open spec fn views(list: Seq<String>) -> Seq<Seq<char>> {
    list.map_values(|s: String| s@)
}

/// The texts of a list of string slices.
pub open spec fn str_views(list: Seq<&str>) -> Seq<Seq<char>> {
    list.map_values(|s: &str| s@)
}

/// The text of an optional string.
pub open spec fn opt_view(value: Option<String>) -> Option<Seq<char>> {
    match value {
        Some(s) => Some(s@),
        None => None,
    }
}

/// The text of an optional string slice.
pub open spec fn opt_str_view(value: Option<&str>) -> Option<Seq<char>> {
    match value {
        Some(s) => Some(s@),
        None => None,
    }
}

/// Does the character have the Unicode `White_Space` property?
pub open spec fn is_white_space(c: char) -> bool {
    let n = c as u32;
    ||| 0x9 <= n <= 0xd
    ||| n == 0x20
    ||| n == 0x85
    ||| n == 0xa0
    ||| n == 0x1680
    ||| 0x2000 <= n <= 0x200a
    ||| n == 0x2028
    ||| n == 0x2029
    ||| n == 0x202f
    ||| n == 0x205f
    ||| n == 0x3000
}

/// Is there white space in `s`?
pub open spec fn has_white_space(s: Seq<char>) -> bool {
    exists|i: int| 0 <= i < s.len() && is_white_space(#[trigger] s[i])
}

/// `s` without the white space at its start.
pub open spec fn trim_start(s: Seq<char>) -> Seq<char>
    decreases s.len(),
{
    if s.len() > 0 && is_white_space(s[0]) {
        trim_start(s.drop_first())
    } else {
        s
    }
}

/// `s` without the white space at its end.
pub open spec fn trim_end(s: Seq<char>) -> Seq<char>
    decreases s.len(),
{
    if s.len() > 0 && is_white_space(s.last()) {
        trim_end(s.drop_last())
    } else {
        s
    }
}

/// `s` without the white space at either end.
pub open spec fn trimmed(s: Seq<char>) -> Seq<char> {
    trim_end(trim_start(s))
}

/// Does `part` stand in `s` at position `i`?
pub open spec fn occurs_at(s: Seq<char>, part: Seq<char>, i: int) -> bool {
    &&& 0 <= i
    &&& i + part.len() <= s.len()
    &&& s.subrange(i, i + part.len()) == part
}

/// The first position at or after `from` at which `part` stands in `s`.
pub open spec fn find_from(s: Seq<char>, part: Seq<char>, from: int) -> Option<int>
    decreases s.len() - from + 1,
{
    if from < 0 || from + part.len() > s.len() {
        None
    } else if occurs_at(s, part, from) {
        Some(from)
    } else {
        find_from(s, part, from + 1)
    }
}

/// Does `part` stand anywhere in `s`?
pub open spec fn contains_text(s: Seq<char>, part: Seq<char>) -> bool {
    exists|i: int| occurs_at(s, part, i)
}

/// The pieces of `s` between the occurrences of `sep`, read from the left.
pub open spec fn split_text(s: Seq<char>, sep: Seq<char>) -> Seq<Seq<char>>
    decreases s.len(),
{
    match find_from(s, sep, 0) {
        Some(i) => if sep.len() > 0 && 0 <= i && i + sep.len() <= s.len() {
            seq![s.take(i)] + split_text(s.skip(i + sep.len()), sep)
        } else {
            seq![s]
        },
        None => seq![s],
    }
}

/// The parts one after another, with `sep` between neighbours.
pub open spec fn join_text(parts: Seq<Seq<char>>, sep: Seq<char>) -> Seq<char>
    decreases parts.len(),
{
    if parts.len() == 0 {
        Seq::empty()
    } else if parts.len() == 1 {
        parts[0]
    } else {
        parts[0] + sep + join_text(parts.drop_first(), sep)
    }
}

/// The lower case form of an ASCII letter; any other character unchanged.
pub open spec fn ascii_lower(c: char) -> char {
    if 'A' <= c && c <= 'Z' {
        (c as u8 + 32) as u8 as char
    } else {
        c
    }
}

/// `s` with its ASCII letters in lower case.
pub open spec fn lowered(s: Seq<char>) -> Seq<char> {
    s.map_values(|c: char| ascii_lower(c))
}

/// What `char::to_lowercase` yields for a character.
pub uninterp spec fn lower_case(c: char) -> Seq<char>;

/// The lower case form of a character.
pub open spec fn lower_form(c: char) -> Seq<char> {
    if (c as u32) < 0x80 {
        seq![ascii_lower(c)]
    } else {
        lower_case(c)
    }
}

/// `s` with every character in lower case.
pub open spec fn lower_text(s: Seq<char>) -> Seq<char>
    decreases s.len(),
{
    if s.len() == 0 {
        seq![]
    } else {
        lower_text(s.drop_last()) + lower_form(s.last())
    }
}

/// The characters of `s`, in order.
pub fn chars_of(s: &str) -> (r: Vec<char>)
    ensures
        r@ == s@,
{
    let mut out: Vec<char> = Vec::new();
    for c in it: s.chars()
        invariant
            out@ == it.seq().take(it.index()),
            it.seq() == s@,
    {
        out.push(c);
        proof {
            assert(it.seq().take(it.index() + 1) =~= it.seq().take(it.index()).push(c));
        }
    }
    out
}

/// Are the two texts the same?
pub fn same_text(a: &str, b: &str) -> (r: bool)
    ensures
        r == (a@ == b@),
{
    a.to_owned() == b.to_owned()
}

/// Does the character have the Unicode `White_Space` property?
pub fn white_space(c: char) -> (r: bool)
    ensures
        r == is_white_space(c),
{
    let n: u32 = c as u32;
    (0x9 <= n && n <= 0xd) || n == 0x20 || n == 0x85 || n == 0xa0 || n == 0x1680 || (0x2000 <= n && n
        <= 0x200a) || n == 0x2028 || n == 0x2029 || n == 0x202f || n == 0x205f || n == 0x3000
}

/// Is there white space in `s`?
pub fn holds_white_space(s: &str) -> (r: bool)
    ensures
        r == has_white_space(s@),
{
    let cs: Vec<char> = chars_of(s);
    let mut i: usize = 0;
    while i < cs.len()
        invariant
            cs@ == s@,
            i <= cs.len(),
            forall|k: int| 0 <= k < i ==> !is_white_space(#[trigger] s@[k]),
        decreases cs.len() - i,
    {
        if white_space(cs[i]) {
            assert(is_white_space(s@[i as int]));
            return true;
        }
        i = i + 1;
    }
    false
}

/// `s` without the white space at either end.
pub fn trim<'a>(s: &'a str) -> (r: &'a str)
    ensures
        r@ == trimmed(s@),
{
    let cs: Vec<char> = chars_of(s);
    let mut start: usize = 0;
    proof {
        assert(s@.skip(0) =~= s@);
    }
    while start < cs.len() && white_space(cs[start])
        invariant
            cs@ == s@,
            start <= cs.len(),
            trim_start(s@) == trim_start(s@.skip(start as int)),
        decreases cs.len() - start,
    {
        proof {
            let rest = s@.skip(start as int);
            assert(rest[0] == s@[start as int]);
            assert(rest.drop_first() =~= s@.skip(start + 1));
        }
        start = start + 1;
    }
    let ghost rest = s@.skip(start as int);
    assert(trim_start(s@) == rest) by {
        if rest.len() > 0 {
            assert(rest[0] == s@[start as int]);
        }
    }
    let mut end: usize = cs.len();
    proof {
        assert(s@.subrange(start as int, end as int) =~= rest);
    }
    while start < end && white_space(cs[end - 1])
        invariant
            cs@ == s@,
            start <= end <= cs.len(),
            trim_end(rest) == trim_end(s@.subrange(start as int, end as int)),
        decreases end,
    {
        proof {
            let cur = s@.subrange(start as int, end as int);
            assert(cur.last() == s@[end - 1]);
            assert(cur.drop_last() =~= s@.subrange(start as int, end - 1));
        }
        end = end - 1;
    }
    proof {
        let cur = s@.subrange(start as int, end as int);
        if cur.len() > 0 {
            assert(cur.last() == s@[end - 1]);
        }
    }
    s.substring_char(start, end)
}

/// What is left by trimming at the start has no white space there.
proof fn lemma_trim_start(s: Seq<char>)
    ensures
        trim_start(s).len() > 0 ==> !is_white_space(trim_start(s)[0]),
        trim_start(s).len() <= s.len(),
        trim_start(s) == s.skip(s.len() - trim_start(s).len()),
    decreases s.len(),
{
    if s.len() > 0 && is_white_space(s[0]) {
        let rest = s.drop_first();
        lemma_trim_start(rest);
        assert(rest.skip(rest.len() - trim_start(rest).len()) =~= s.skip(
            s.len() - trim_start(s).len(),
        ));
    } else {
        assert(s.skip(0) =~= s);
    }
}

/// What is left by trimming at the end has no white space there.
proof fn lemma_trim_end(s: Seq<char>)
    ensures
        trim_end(s).len() > 0 ==> !is_white_space(trim_end(s).last()),
        trim_end(s).len() <= s.len(),
        trim_end(s) == s.take(trim_end(s).len() as int),
    decreases s.len(),
{
    if s.len() > 0 && is_white_space(s.last()) {
        let rest = s.drop_last();
        lemma_trim_end(rest);
        assert(rest.take(trim_end(rest).len() as int) =~= s.take(trim_end(s).len() as int));
    } else {
        assert(s.take(s.len() as int) =~= s);
    }
}

/// What is left by trimming has no white space at either end, and trimming
/// it again changes nothing.
pub proof fn lemma_trimmed(s: Seq<char>)
    ensures
        trimmed(s).len() > 0 ==> !is_white_space(trimmed(s)[0]) && !is_white_space(
            trimmed(s).last(),
        ),
        trimmed(trimmed(s)) == trimmed(s),
{
    lemma_trim_start(s);
    lemma_trim_end(trim_start(s));
}

/// A text without white space at either end is not changed by trimming.
pub proof fn lemma_trim_plain(s: Seq<char>)
    requires
        s.len() > 0 ==> !is_white_space(s[0]) && !is_white_space(s.last()),
    ensures
        trimmed(s) == s,
{
}

/// A character that is no white space is not lost by trimming.
pub proof fn lemma_trim_keeps(s: Seq<char>, i: int)
    requires
        0 <= i < s.len(),
        !is_white_space(s[i]),
    ensures
        trimmed(s).len() > 0,
{
    lemma_trim_start_keeps(s, i);
    let rest = trim_start(s);
    lemma_trim_start(s);
    lemma_trim_end_keeps(rest, 0);
}

/// A character that is no white space is not lost by trimming at the start.
proof fn lemma_trim_start_keeps(s: Seq<char>, i: int)
    requires
        0 <= i < s.len(),
        !is_white_space(s[i]),
    ensures
        trim_start(s).len() > 0,
    decreases s.len(),
{
    if is_white_space(s[0]) {
        assert(s.drop_first()[i - 1] == s[i]);
        lemma_trim_start_keeps(s.drop_first(), i - 1);
    }
}

/// A character that is no white space is not lost by trimming at the end.
proof fn lemma_trim_end_keeps(s: Seq<char>, i: int)
    requires
        0 <= i < s.len(),
        !is_white_space(s[i]),
    ensures
        trim_end(s).len() > 0,
    decreases s.len(),
{
    if is_white_space(s.last()) {
        assert(s.drop_last()[i] == s[i]);
        lemma_trim_end_keeps(s.drop_last(), i);
    }
}

/// Does `part` stand in `s` at position `i`?
fn stands_at(s: &Vec<char>, part: &Vec<char>, i: usize) -> (r: bool)
    requires
        i + part.len() <= s.len(),
    ensures
        r == occurs_at(s@, part@, i as int),
{
    let mut k: usize = 0;
    while k < part.len()
        invariant
            i + part.len() <= s.len(),
            k <= part.len(),
            forall|j: int| 0 <= j < k ==> s@[i + j] == #[trigger] part@[j],
        decreases part.len() - k,
    {
        if s[i + k] != part[k] {
            proof {
                let window = s@.subrange(i as int, i + part.len());
                assert(window[k as int] == s@[i + k]);
            }
            return false;
        }
        k = k + 1;
    }
    assert(s@.subrange(i as int, i + part.len()) =~= part@);
    true
}

/// The first position at or after `from` at which `part` stands in `s`.
fn find_chars(s: &Vec<char>, part: &Vec<char>, from: usize) -> (r: Option<usize>)
    requires
        from <= s.len(),
    ensures
        match r {
            Some(i) => find_from(s@, part@, from as int) == Some(i as int) && from <= i && i
                + part.len() <= s.len(),
            None => find_from(s@, part@, from as int) is None,
        },
{
    if part.len() > s.len() {
        return None;
    }
    let last: usize = s.len() - part.len();
    let mut i: usize = from;
    while i <= last
        invariant
            from <= i <= s.len() + 1,
            last + part.len() == s.len(),
            find_from(s@, part@, from as int) == find_from(s@, part@, i as int),
        decreases last + 1 - i,
    {
        if stands_at(s, part, i) {
            return Some(i);
        }
        if i == last {
            return None;
        }
        i = i + 1;
    }
    None
}

/// A position found is one at which the part stands, and the first such.
pub proof fn lemma_find_from(s: Seq<char>, part: Seq<char>, from: int)
    requires
        0 <= from,
    ensures
        match find_from(s, part, from) {
            Some(i) => from <= i && occurs_at(s, part, i) && forall|j: int|
                from <= j < i ==> !#[trigger] occurs_at(s, part, j),
            None => forall|j: int| from <= j ==> !#[trigger] occurs_at(s, part, j),
        },
    decreases s.len() - from + 1,
{
    if from + part.len() <= s.len() && !occurs_at(s, part, from) {
        lemma_find_from(s, part, from + 1);
    }
}

/// The position found is determined by being the first occurrence.
pub proof fn lemma_find_is(s: Seq<char>, part: Seq<char>, from: int, i: int)
    requires
        0 <= from <= i,
        occurs_at(s, part, i),
        forall|j: int| from <= j < i ==> !#[trigger] occurs_at(s, part, j),
    ensures
        find_from(s, part, from) == Some(i),
{
    lemma_find_from(s, part, from);
    match find_from(s, part, from) {
        Some(k) => {
            if k < i {
                assert(!occurs_at(s, part, k));
            } else if i < k {
                assert(!occurs_at(s, part, i));
            }
        },
        None => {},
    }
}

/// The position of the first occurrence of the character `c` in `s`.
pub fn find_char(s: &str, c: char) -> (r: Option<usize>)
    ensures
        match r {
            Some(i) => find_from(s@, seq![c], 0) == Some(i as int) && i < s@.len(),
            None => find_from(s@, seq![c], 0) is None,
        },
{
    let cs: Vec<char> = chars_of(s);
    let part: Vec<char> = vec![c];
    assert(part@ =~= seq![c]);
    find_chars(&cs, &part, 0)
}

/// The pieces of `s` between the occurrences of `sep`, read from the left.
pub fn split<'a>(s: &'a str, sep: &str) -> (r: Vec<&'a str>)
    requires
        sep@.len() > 0,
    ensures
        str_views(r@) == split_text(s@, sep@),
{
    let cs: Vec<char> = chars_of(s);
    let ss: Vec<char> = chars_of(sep);
    let mut parts: Vec<&'a str> = Vec::new();
    let mut start: usize = 0;
    proof {
        assert(s@.skip(0) =~= s@);
        assert(str_views(parts@) + split_text(s@, sep@) =~= split_text(s@, sep@));
    }
    loop
        invariant
            cs@ == s@,
            ss@ == sep@,
            sep@.len() > 0,
            start <= cs.len(),
            str_views(parts@) + split_text(s@.skip(start as int), sep@) == split_text(s@, sep@),
        decreases cs.len() - start,
    {
        let ghost rest = s@.skip(start as int);
        proof {
            lemma_find_in_rest(s@, sep@, start as int);
        }
        match find_chars(&cs, &ss, start) {
            Some(i) => {
                let piece: &'a str = s.substring_char(start, i);
                let ghost before = parts@;
                parts.push(piece);
                proof {
                    let k = i - start;
                    assert(find_from(rest, sep@, 0) == Some(k));
                    assert(piece@ =~= rest.take(k));
                    assert(rest.skip(k + sep@.len()) =~= s@.skip(i + sep@.len()));
                    assert(str_views(parts@) =~= str_views(before).push(piece@));
                    assert(str_views(parts@) + split_text(s@.skip(i + sep@.len()), sep@)
                        =~= str_views(before) + split_text(rest, sep@));
                }
                start = i + ss.len();
            },
            None => {
                let piece: &'a str = s.substring_char(start, cs.len());
                let ghost before = parts@;
                parts.push(piece);
                proof {
                    assert(piece@ =~= rest);
                    assert(str_views(parts@) =~= str_views(before).push(piece@));
                    assert(str_views(before) + split_text(rest, sep@) =~= str_views(before).push(rest));
                }
                return parts;
            },
        }
    }
}

/// Looking from `from` on is looking in what stands from `from` on.
proof fn lemma_find_in_rest(s: Seq<char>, part: Seq<char>, from: int)
    requires
        0 <= from <= s.len(),
    ensures
        find_from(s.skip(from), part, 0) == (match find_from(s, part, from) {
            Some(i) => Some(i - from),
            None => None::<int>,
        }),
{
    let rest = s.skip(from);
    assert forall|j: int| 0 <= j implies occurs_at(rest, part, j) == occurs_at(s, part, from + j) by {
        if j + part.len() <= rest.len() {
            assert(rest.subrange(j, j + part.len()) =~= s.subrange(from + j, from + j + part.len()));
        }
    }
    lemma_find_from(s, part, from);
    lemma_find_from(rest, part, 0);
    match find_from(s, part, from) {
        Some(i) => {
            assert(occurs_at(rest, part, i - from) == occurs_at(s, part, from + (i - from)));
            assert forall|j: int| 0 <= j < i - from implies !#[trigger] occurs_at(rest, part, j) by {
                assert(!occurs_at(s, part, from + j));
            }
            lemma_find_is(rest, part, 0, i - from);
        },
        None => {
            match find_from(rest, part, 0) {
                Some(k) => {
                    assert(occurs_at(s, part, from + k));
                },
                None => {},
            }
        },
    }
}

/// The lower case form of an ASCII letter; any other character unchanged.
fn lower_char(c: char) -> (r: char)
    ensures
        r == ascii_lower(c),
{
    if 'A' <= c && c <= 'Z' {
        ((c as u8) + 32) as char
    } else {
        c
    }
}

/// The characters of `s`, ASCII letters in lower case.
fn lower_chars_of(s: &str) -> (r: Vec<char>)
    ensures
        r@ == lowered(s@),
{
    let cs: Vec<char> = chars_of(s);
    let mut out: Vec<char> = Vec::new();
    let mut i: usize = 0;
    while i < cs.len()
        invariant
            cs@ == s@,
            i <= cs.len(),
            out@ == lowered(s@).take(i as int),
        decreases cs.len() - i,
    {
        out.push(lower_char(cs[i]));
        proof {
            assert(lowered(s@).take(i + 1) =~= lowered(s@).take(i as int).push(ascii_lower(s@[i as int])));
        }
        i = i + 1;
    }
    assert(lowered(s@).take(i as int) =~= lowered(s@));
    out
}

/// Calls `char::to_lowercase` and collects what it yields.
///
/// What it yields depends on the character alone and is named by
/// `lower_case`.
#[verifier::external_body]
fn to_lower_case(c: char) -> (r: Vec<char>)
    ensures
        r@ == lower_case(c),
{
    c.to_lowercase().collect()
}

/// The characters of `s` in lower case.
fn lower_text_of(s: &str) -> (r: Vec<char>)
    ensures
        r@ == lower_text(s@),
{
    let cs: Vec<char> = chars_of(s);
    let mut out: Vec<char> = Vec::new();
    let mut i: usize = 0;
    while i < cs.len()
        invariant
            cs@ == s@,
            i <= cs.len(),
            out@ == lower_text(s@.take(i as int)),
        decreases cs.len() - i,
    {
        let ghost before = out@;
        proof {
            let next = s@.take(i + 1);
            assert(next.drop_last() =~= s@.take(i as int));
            assert(next.last() == s@[i as int]);
        }
        if (cs[i] as u32) < 0x80 {
            out.push(lower_char(cs[i]));
            assert(out@ =~= before + seq![ascii_lower(s@[i as int])]);
        } else {
            let mut form: Vec<char> = to_lower_case(cs[i]);
            out.append(&mut form);
        }
        i = i + 1;
    }
    assert(s@.take(i as int) =~= s@);
    out
}

/// Does `part` stand anywhere in `s`, case aside?
pub fn contains_ignoring_case(s: &str, part: &str) -> (r: bool)
    ensures
        r == contains_text(lower_text(s@), lower_text(part@)),
{
    let cs: Vec<char> = lower_text_of(s);
    let ps: Vec<char> = lower_text_of(part);
    proof {
        lemma_find_from(cs@, ps@, 0);
    }
    match find_chars(&cs, &ps, 0) {
        Some(i) => {
            assert(occurs_at(cs@, ps@, i as int));
            true
        },
        None => false,
    }
}

/// A text goes to lower case part by part.
pub proof fn lemma_lower_text(a: Seq<char>, b: Seq<char>)
    ensures
        lower_text(a + b) == lower_text(a) + lower_text(b),
    decreases b.len(),
{
    if b.len() == 0 {
        assert(a + b =~= a);
        assert(lower_text(a) + lower_text(b) =~= lower_text(a));
    } else {
        lemma_lower_text(a, b.drop_last());
        assert((a + b).drop_last() =~= a + b.drop_last());
        assert(lower_text(a) + (lower_text(b.drop_last()) + lower_form(b.last())) =~= lower_text(a)
            + lower_text(b.drop_last()) + lower_form(b.last()));
    }
}

/// In a text of ASCII characters the letters alone change, each into one.
pub proof fn lemma_lower_ascii(s: Seq<char>)
    requires
        vstd::utf8::is_ascii_chars(s),
    ensures
        lower_text(s) == lowered(s),
    decreases s.len(),
{
    if s.len() > 0 {
        lemma_lower_ascii(s.drop_last());
        assert(lowered(s) =~= lowered(s.drop_last()) + seq![ascii_lower(s.last())]);
    }
}

/// Are the two texts the same, ASCII case aside?
pub fn same_ignoring_case(a: &str, b: &str) -> (r: bool)
    ensures
        r == (lowered(a@) == lowered(b@)),
{
    let xs: Vec<char> = lower_chars_of(a);
    let ys: Vec<char> = lower_chars_of(b);
    if xs.len() != ys.len() {
        return false;
    }
    let same: bool = stands_at(&xs, &ys, 0);
    assert(xs@.subrange(0, ys@.len() as int) =~= xs@);
    same
}

/// The parts one after another, with `sep` between neighbours.
pub fn join(parts: &Vec<String>, sep: &str) -> (r: String)
    ensures
        r@ == join_text(views(parts@), sep@),
{
    let mut out: String = String::new();
    if parts.len() == 0 {
        return out;
    }
    let mut i: usize = parts.len() - 1;
    out.append(parts[i].as_str());
    proof {
        let tail = views(parts@).skip(i as int);
        assert(tail.len() == 1);
        assert(tail[0] == out@);
    }
    while i > 0
        invariant
            i < parts.len(),
            out@ == join_text(views(parts@).skip(i as int), sep@),
        decreases i,
    {
        let mut longer: String = parts[i - 1].clone();
        longer.append(sep);
        longer.append(out.as_str());
        proof {
            let tail = views(parts@).skip(i - 1);
            assert(tail[0] == parts@[i - 1]@);
            assert(tail.drop_first() =~= views(parts@).skip(i as int));
        }
        out = longer;
        i = i - 1;
    }
    assert(views(parts@).skip(0) =~= views(parts@));
    out
}

/// Splitting undoes joining, where the separator is first met behind each
/// part but the last, and is not met in the last.
pub proof fn lemma_split_of_join(parts: Seq<Seq<char>>, sep: Seq<char>)
    requires
        sep.len() > 0,
        parts.len() > 0,
        forall|k: int|
            0 <= k < parts.len() - 1 ==> find_from(#[trigger] parts[k] + sep, sep, 0) == Some(
                parts[k].len() as int,
            ),
        find_from(parts.last(), sep, 0) is None,
    ensures
        split_text(join_text(parts, sep), sep) == parts,
    decreases parts.len(),
{
    if parts.len() == 1 {
        assert(split_text(parts[0], sep) =~= parts);
    } else {
        let rest = parts.drop_first();
        assert forall|k: int| 0 <= k < rest.len() - 1 implies find_from(
            #[trigger] rest[k] + sep,
            sep,
            0,
        ) == Some(rest[k].len() as int) by {
            assert(rest[k] == parts[k + 1]);
        }
        lemma_split_of_join(rest, sep);
        let head = parts[0];
        let tail = join_text(rest, sep);
        let whole = head + sep + tail;
        let n = head.len() as int;
        lemma_find_from(head + sep, sep, 0);
        assert forall|j: int| 0 <= j < n implies !#[trigger] occurs_at(whole, sep, j) by {
            if occurs_at(whole, sep, j) {
                assert((head + sep).subrange(j, j + sep.len()) =~= whole.subrange(j, j + sep.len()));
                assert(occurs_at(head + sep, sep, j));
            }
        }
        assert(whole.subrange(n, n + sep.len()) =~= sep);
        lemma_find_is(whole, sep, 0, n);
        assert(whole.take(n) =~= head);
        assert(whole.skip(n + sep.len()) =~= tail);
        assert(seq![head] + rest =~= parts);
    }
}

/// Joined parts start as the first of them and end as the last.
pub proof fn lemma_join_ends(parts: Seq<Seq<char>>, sep: Seq<char>)
    requires
        parts.len() > 0,
        forall|i: int| 0 <= i < parts.len() ==> (#[trigger] parts[i]).len() > 0,
    ensures
        join_text(parts, sep).len() > 0,
        join_text(parts, sep)[0] == parts[0][0],
        join_text(parts, sep).last() == parts.last().last(),
    decreases parts.len(),
{
    assert(parts[0].len() > 0);
    if parts.len() > 1 {
        let rest = parts.drop_first();
        assert forall|i: int| 0 <= i < rest.len() implies (#[trigger] rest[i]).len() > 0 by {
            assert(rest[i] == parts[i + 1]);
        }
        lemma_join_ends(rest, sep);
        assert(rest.last() == parts.last());
    }
}

/// Trimming takes white space from both ends, all of it and nothing else.
pub proof fn law_trimmed_text(before: Seq<char>, s: Seq<char>, behind: Seq<char>)
    requires
        forall|i: int| 0 <= i < before.len() ==> is_white_space(#[trigger] before[i]),
        forall|i: int| 0 <= i < behind.len() ==> is_white_space(#[trigger] behind[i]),
        s.len() > 0 ==> !is_white_space(s[0]) && !is_white_space(s.last()),
    ensures
        trimmed(before + s + behind) == s,
    decreases before.len() + behind.len(),
{
    let whole = before + s + behind;
    if before.len() > 0 {
        let shorter = before.drop_first();
        assert(whole[0] == before[0]);
        assert(whole.drop_first() =~= shorter + s + behind);
        assert forall|i: int| 0 <= i < shorter.len() implies is_white_space(
            #[trigger] shorter[i],
        ) by {
            assert(shorter[i] == before[i + 1]);
        }
        law_trimmed_text(shorter, s, behind);
    } else if s.len() == 0 {
        assert(whole =~= behind);
        if behind.len() > 0 {
            let shorter = behind.drop_first();
            assert forall|i: int| 0 <= i < shorter.len() implies is_white_space(
                #[trigger] shorter[i],
            ) by {
                assert(shorter[i] == behind[i + 1]);
            }
            law_trimmed_text(before, s, shorter);
            assert(whole.drop_first() =~= before + s + shorter);
        }
        assert(trimmed(whole).len() == 0);
        assert(trimmed(whole) =~= s);
    } else {
        assert(whole[0] == s[0]);
        assert(trim_start(whole) == whole);
        if behind.len() > 0 {
            let shorter = behind.drop_last();
            assert(whole.last() == behind.last());
            assert(whole.drop_last() =~= before + s + shorter);
            law_trimmed_text(before, s, shorter);
            assert((before + s + shorter)[0] == s[0]);
        } else {
            assert(whole =~= s);
        }
    }
}

/// Joining no parts gives no text, one part gives that part, and one more part
/// stands behind the others and a separator.
pub proof fn law_one_more_part(parts: Seq<Seq<char>>, sep: Seq<char>, part: Seq<char>)
    ensures
        join_text(Seq::empty(), sep).len() == 0,
        join_text(seq![part], sep) == part,
        parts.len() > 0 ==> join_text(parts.push(part), sep) == join_text(parts, sep) + sep + part,
    decreases parts.len(),
{
    let more = parts.push(part);
    let one = seq![part];
    assert(one.len() == 1 && one[0] == part);
    assert(join_text(one, sep) == part);
    if parts.len() == 1 {
        assert(more.drop_first() =~= one);
        assert(more.len() == 2 && more[0] == parts[0]);
        assert(join_text(parts, sep) == parts[0]);
        assert(join_text(more, sep) == parts[0] + sep + part);
    } else if parts.len() > 1 {
        let rest = parts.drop_first();
        law_one_more_part(rest, sep, part);
        assert(more.drop_first() =~= rest.push(part));
        assert(more[0] == parts[0]);
        assert(join_text(more, sep) == parts[0] + sep + (join_text(rest, sep) + sep + part));
        assert(join_text(parts, sep) == parts[0] + sep + join_text(rest, sep));
        assert(parts[0] + sep + (join_text(rest, sep) + sep + part) =~= parts[0] + sep + join_text(
            rest,
            sep,
        ) + sep + part);
    }
}

/// Every part stands in the joined text.
pub proof fn law_parts_stand_in_joined_text(parts: Seq<Seq<char>>, sep: Seq<char>, i: int)
    requires
        0 <= i < parts.len(),
    ensures
        contains_text(join_text(parts, sep), parts[i]),
    decreases parts.len(),
{
    let whole = join_text(parts, sep);
    if i == 0 {
        assert(whole.subrange(0, parts[0].len() as int) =~= parts[0]);
        assert(occurs_at(whole, parts[0], 0));
    } else {
        let rest = parts.drop_first();
        let tail = join_text(rest, sep);
        law_parts_stand_in_joined_text(rest, sep, i - 1);
        assert(rest[i - 1] == parts[i]);
        let k = choose|k: int| occurs_at(tail, parts[i], k);
        let n = parts[0].len() + sep.len() + k;
        assert(whole.subrange(n, n + parts[i].len()) =~= tail.subrange(k, k + parts[i].len()));
        assert(occurs_at(whole, parts[i], n));
    }
}

/// Joining the pieces that a text is split into gives the text back, and the
/// separator stands in none of the pieces.
pub proof fn law_join_undoes_split(s: Seq<char>, sep: Seq<char>)
    requires
        sep.len() > 0,
    ensures
        join_text(split_text(s, sep), sep) == s,
        split_text(s, sep).len() > 0,
        forall|k: int|
            0 <= k < split_text(s, sep).len() ==> !contains_text(
                #[trigger] split_text(s, sep)[k],
                sep,
            ),
    decreases s.len(),
{
    let pieces = split_text(s, sep);
    lemma_find_from(s, sep, 0);
    match find_from(s, sep, 0) {
        Some(i) => {
            let tail = s.skip(i + sep.len());
            let rest = split_text(tail, sep);
            law_join_undoes_split(tail, sep);
            assert(pieces.drop_first() =~= rest);
            assert(s =~= s.take(i) + s.subrange(i, i + sep.len()) + tail);
            assert forall|k: int| 0 <= k < pieces.len() implies !contains_text(
                #[trigger] pieces[k],
                sep,
            ) by {
                if k == 0 {
                    let head = s.take(i);
                    assert forall|j: int| !#[trigger] occurs_at(head, sep, j) by {
                        if occurs_at(head, sep, j) {
                            assert(s.subrange(j, j + sep.len()) =~= head.subrange(
                                j,
                                j + sep.len(),
                            ));
                            assert(occurs_at(s, sep, j));
                        }
                    }
                } else {
                    assert(pieces[k] == rest[k - 1]);
                }
            }
        },
        None => {
            assert(pieces =~= seq![s]);
            assert forall|j: int| !#[trigger] occurs_at(s, sep, j) by {
                if j < 0 {
                }
            }
        },
    }
}

/// Going to lower case changes the ASCII letters `A` to `Z`, each into its
/// small letter, and no other character.
pub proof fn law_ascii_case(s: Seq<char>, i: int)
    requires
        0 <= i < s.len(),
    ensures
        lowered(s).len() == s.len(),
        0x41 <= s[i] as u32 <= 0x5a ==> lowered(s)[i] as u32 == s[i] as u32 + 0x20,
        !(0x41 <= s[i] as u32 <= 0x5a) ==> lowered(s)[i] == s[i],
        lowered(lowered(s)) == lowered(s),
{
    assert(lowered(lowered(s)) =~= lowered(s));
}

/// Lists of texts and texts that may be missing are seen as they are.
pub proof fn law_texts_are_seen_as_they_are(list: Seq<String>, value: Option<String>, i: int)
    ensures
        views(list).len() == list.len(),
        0 <= i < list.len() ==> views(list)[i] == list[i]@,
        opt_view(value) is Some <==> value is Some,
        value matches Some(s) ==> opt_view(value) == Some(s@),
{
}

/// A part stands in a text exactly where the text is made of it and of what
/// stands before and behind it.
pub proof fn law_part_stands(before: Seq<char>, part: Seq<char>, behind: Seq<char>, i: int)
    ensures
        occurs_at(before + part + behind, part, before.len() as int),
        contains_text(before + part + behind, part),
        occurs_at(before, part, i) ==> 0 <= i && i + part.len() <= before.len() && before
            == before.take(i) + part + before.skip(i + part.len()),
{
    let whole = before + part + behind;
    let n = before.len() as int;
    assert(whole.subrange(n, n + part.len()) =~= part);
    assert(occurs_at(whole, part, n));
    if occurs_at(before, part, i) {
        assert(before =~= before.take(i) + before.subrange(i, i + part.len()) + before.skip(
            i + part.len(),
        ));
    }
}

/// Among the ASCII characters white space is the blank, the tab and the line
/// breaks, and letters, digits and signs are none; beyond them it is the spaces
/// and separators that Unicode lists.
pub proof fn law_white_space(c: char)
    ensures
        (c as u32) < 0x80 ==> (is_white_space(c) <==> c == ' ' || c == '\t' || c == '\n' || c
            == '\r' || c == '\u{b}' || c == '\u{c}'),
        (c as u32) >= 0x80 ==> (is_white_space(c) <==> c == '\u{85}' || c == '\u{a0}' || c
            == '\u{1680}' || ('\u{2000}' <= c && c <= '\u{200a}') || c == '\u{2028}' || c
            == '\u{2029}' || c == '\u{202f}' || c == '\u{205f}' || c == '\u{3000}'),
{
}

/// Going to lower case goes character by character: an ASCII letter becomes its
/// small letter, and any other character what `char::to_lowercase` yields.
pub proof fn law_lower_case(a: Seq<char>, c: char)
    ensures
        lower_text(a.push(c)) == lower_text(a) + (if (c as u32) < 0x80 {
            lowered(seq![c])
        } else {
            lower_case(c)
        }),
        lower_text(Seq::empty()).len() == 0,
{
    assert(a.push(c).drop_last() =~= a);
    if (c as u32) < 0x80 {
        assert(lowered(seq![c]) =~= seq![ascii_lower(c)]);
    }
}

} // verus!
