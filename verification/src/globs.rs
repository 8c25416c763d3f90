//! Glob patterns: how they are spelled for the `globset` crate, and what they
//! match.
//!
//! In a pattern `*` stands for any sequence of characters, `?` for exactly
//! one, `[..]` for one of a set or range and `[!..]` for one that is not in
//! it; every other character stands for itself. `globset` reads more than
//! that into a pattern, so that a pattern is spelled anew before it is handed
//! over. Three functions of this module call the crate; their contracts are
//! what the rest of the library knows of it. They hold on Unix, where a
//! backslash quotes the character behind it and separates no paths.
use vstd::prelude::*;
use vstd::string::StrSliceExecFns;
use vstd::string::StringExecFns;

use crate::text;

verus! {

/// Does the character mean something to `globset` where a pattern means the
/// character itself?
pub open spec fn is_quoted(c: char) -> bool {
    c == '{' || c == '}' || c == '\\'
}

/// The first closing bracket at or behind a position; a position behind the
/// pattern where there is none.
pub open spec fn next_bracket(pattern: Seq<char>, from: int) -> int
    decreases pattern.len() - from,
{
    if from >= pattern.len() || pattern[from] == ']' {
        from
    } else {
        next_bracket(pattern, from + 1)
    }
}

/// The position of the first member of the set that opens at `i`.
pub open spec fn first_member(pattern: Seq<char>, i: int) -> int {
    if i + 1 < pattern.len() && (pattern[i + 1] == '!' || pattern[i + 1] == '^') {
        i + 2
    } else {
        i + 1
    }
}

/// The position behind the set that opens at `i`: the first member may be a
/// closing bracket, the next closing bracket ends the set, and a set that
/// nothing ends takes all the rest.
pub open spec fn set_end(pattern: Seq<char>, i: int) -> int {
    let close = next_bracket(pattern, first_member(pattern, i) + 1);
    if close < pattern.len() {
        close + 1
    } else {
        pattern.len() as int
    }
}

/// What stands in a pattern from position `i` on, spelled for `globset`: sets
/// as they are, a run of `*` as one, and a backslash before each character
/// that would else not mean itself.
pub open spec fn spelled_from(pattern: Seq<char>, i: int) -> Seq<char>
    decreases pattern.len() - i,
{
    if i < 0 || i >= pattern.len() {
        seq![]
    } else if pattern[i] == '[' {
        proof {
            lemma_set_end(pattern, i);
        }
        pattern.subrange(i, set_end(pattern, i)) + spelled_from(pattern, set_end(pattern, i))
    } else if pattern[i] == '*' && i + 1 < pattern.len() && pattern[i + 1] == '*' {
        spelled_from(pattern, i + 1)
    } else if is_quoted(pattern[i]) {
        seq!['\\', pattern[i]] + spelled_from(pattern, i + 1)
    } else {
        seq![pattern[i]] + spelled_from(pattern, i + 1)
    }
}

/// A pattern spelled for `globset`.
///
/// The empty group at the end stands for no text. Without it a set of globs
/// takes some of them for file names, and compares file extensions in place of
/// texts; with it every glob is compiled and held against the whole text.
pub open spec fn spelled(pattern: Seq<char>) -> Seq<char> {
    spelled_from(pattern, 0) + seq!['{', '}']
}

/// A piece of a pattern.
pub enum Piece {
    /// The character itself.
    Itself(char),
    /// Exactly one character.
    One,
    /// Any sequence of characters.
    Any,
    /// One character of a set, or one that is not in it.
    OneOf { negated: bool, body: Seq<char> },
}

/// Does the set start with a range like `a-z`?
pub open spec fn is_range(body: Seq<char>) -> bool {
    body.len() >= 3 && body[1] == '-'
}

/// Is the character in the set, which is made of characters and of ranges?
pub open spec fn in_set(body: Seq<char>, c: char) -> bool
    decreases body.len(),
{
    if body.len() == 0 {
        false
    } else if is_range(body) {
        (body[0] as u32 <= c as u32 && c as u32 <= body[2] as u32) || in_set(body.skip(3), c)
    } else {
        c == body[0] || in_set(body.skip(1), c)
    }
}

/// May the character be a member of a set, or an end of a range, where it is
/// sure to be taken for itself?
pub open spec fn is_member(c: char) -> bool {
    (c as u32) < 0x80 && c != '-' && c != ']'
}

/// Is the set made of such members, and of ranges that are not empty?
pub open spec fn is_plain_set(body: Seq<char>) -> bool
    decreases body.len(),
{
    if body.len() == 0 {
        true
    } else if is_range(body) {
        is_member(body[0]) && is_member(body[2]) && body[0] as u32 <= body[2] as u32
            && is_plain_set(body.skip(3))
    } else {
        is_member(body[0]) && is_plain_set(body.skip(1))
    }
}

/// What a character of a pattern stands for outside of sets.
pub open spec fn piece_of(c: char) -> Piece {
    if c == '*' {
        Piece::Any
    } else if c == '?' {
        Piece::One
    } else {
        Piece::Itself(c)
    }
}

/// The set that opens at `i`.
pub open spec fn set_at(pattern: Seq<char>, i: int) -> Piece {
    let first = first_member(pattern, i);
    Piece::OneOf {
        negated: first == i + 2,
        body: pattern.subrange(first, next_bracket(pattern, first + 1)),
    }
}

/// The pieces that a pattern has from position `i` on.
pub open spec fn pieces_from(pattern: Seq<char>, i: int) -> Seq<Piece>
    decreases pattern.len() - i,
{
    if i < 0 || i >= pattern.len() {
        seq![]
    } else if pattern[i] == '[' {
        proof {
            lemma_set_end(pattern, i);
        }
        seq![set_at(pattern, i)] + pieces_from(pattern, set_end(pattern, i))
    } else if pattern[i] == '*' && i + 1 < pattern.len() && pattern[i + 1] == '*' {
        pieces_from(pattern, i + 1)
    } else {
        seq![piece_of(pattern[i])] + pieces_from(pattern, i + 1)
    }
}

/// The pieces of a pattern; a run of `*` is one piece.
pub open spec fn pieces_of(pattern: Seq<char>) -> Seq<Piece> {
    pieces_from(pattern, 0)
}

/// Is the text made of what the pieces stand for, one behind the other?
pub open spec fn fits(pieces: Seq<Piece>, subject: Seq<char>) -> bool
    decreases pieces.len(),
{
    if pieces.len() == 0 {
        subject.len() == 0
    } else {
        let rest = pieces.drop_first();
        match pieces[0] {
            Piece::Itself(c) => subject.len() > 0 && subject[0] == c && fits(rest, subject.skip(1)),
            Piece::One => subject.len() > 0 && fits(rest, subject.skip(1)),
            Piece::Any => exists|n: int|
                0 <= n <= subject.len() && fits(rest, #[trigger] subject.skip(n)),
            Piece::OneOf { negated, body } => subject.len() > 0 && in_set(body, subject[0])
                != negated && fits(rest, subject.skip(1)),
        }
    }
}

/// How a piece is spelled for `globset`.
pub open spec fn piece_text(piece: Piece) -> Seq<char> {
    match piece {
        Piece::Itself(c) => if is_quoted(c) || c == '?' || c == '*' || c == '[' {
            seq!['\\', c]
        } else {
            seq![c]
        },
        Piece::One => seq!['?'],
        Piece::Any => seq!['*'],
        Piece::OneOf { negated, body } => seq!['['] + (if negated {
            seq!['!']
        } else {
            seq![]
        }) + body + seq![']'],
    }
}

/// How pieces are spelled for `globset`, one behind the other.
pub open spec fn pieces_text(pieces: Seq<Piece>) -> Seq<char>
    decreases pieces.len(),
{
    if pieces.len() == 0 {
        seq![]
    } else {
        piece_text(pieces[0]) + pieces_text(pieces.drop_first())
    }
}

/// The glob that spells out the pieces.
pub open spec fn glob_of(pieces: Seq<Piece>) -> Seq<char> {
    pieces_text(pieces) + seq!['{', '}']
}

/// Do the pieces say what they are meant to say once they are spelled out? No
/// two neighbours stand for any sequence of characters, and sets are plain and
/// do not start as a negated one would.
pub open spec fn is_settled(pieces: Seq<Piece>) -> bool {
    &&& forall|i: int|
        0 <= i < pieces.len() - 1 ==> !((#[trigger] pieces[i]) is Any && pieces[i + 1] is Any)
    &&& forall|i: int|
        0 <= i < pieces.len() ==> ((#[trigger] pieces[i]) matches Piece::OneOf { negated, body }
            ==> is_settled_set(negated, body))
}

/// Does the set say what it is meant to say once it is spelled out?
pub open spec fn is_settled_set(negated: bool, body: Seq<char>) -> bool {
    body.len() > 0 && is_plain_set(body) && (negated || body[0] != '!' && body[0] != '^')
}

/// Does no piece stand for one character out of several?
pub open spec fn leaves_no_choice(pieces: Seq<Piece>) -> bool {
    forall|i: int|
        0 <= i < pieces.len() ==> !((#[trigger] pieces[i]) is One) && !(pieces[i] is OneOf)
}

/// The length of globs that `globset` always compiles. Its limit is an
/// automaton of 10 MiB, of which a character of a glob takes 300 bytes at
/// most.
pub const SURE_GLOB_CHARS: usize = 32768;

/// The length of patterns whose spelling is never longer than that.
pub const SURE_PATTERN_CHARS: usize = 16383;

/// What `globset::Glob::new` says against a glob; nothing against a glob that
/// parses.
pub uninterp spec fn glob_error(glob: Seq<char>) -> Option<Seq<char>>;

/// What `globset::GlobSet::new` says against one glob that parses; nothing
/// against a glob that compiles.
pub uninterp spec fn set_error(glob: Seq<char>) -> Option<Seq<char>>;

/// What `globset::GlobSet::is_match` says of a text, for the set of one glob.
pub uninterp spec fn glob_matches(glob: Seq<char>, subject: Seq<char>) -> bool;

/// What is said against a pattern, in parsing it or else in compiling it;
/// nothing against a good one.
pub open spec fn pattern_error(pattern: Seq<char>) -> Option<Seq<char>> {
    match glob_error(spelled(pattern)) {
        Some(reason) => Some(reason),
        None => set_error(spelled(pattern)),
    }
}

/// Does the text match the pattern? A pattern that is no glob matches
/// nothing.
pub open spec fn pattern_accepts(pattern: Seq<char>, subject: Seq<char>) -> bool {
    pattern_error(pattern) is None && glob_matches(spelled(pattern), subject)
}

/// Are the sets that the pattern has from position `i` on closed and plain?
pub open spec fn has_plain_sets_from(pattern: Seq<char>, i: int) -> bool
    decreases pattern.len() - i,
{
    if i < 0 || i >= pattern.len() {
        true
    } else if pattern[i] == '[' {
        proof {
            lemma_set_end(pattern, i);
        }
        let close = next_bracket(pattern, first_member(pattern, i) + 1);
        &&& close < pattern.len()
        &&& pattern[i + 1] != '^'
        &&& is_plain_set(pattern.subrange(first_member(pattern, i), close))
        &&& has_plain_sets_from(pattern, set_end(pattern, i))
    } else {
        has_plain_sets_from(pattern, i + 1)
    }
}

/// Is the pattern sure to be a glob? Its sets are closed and plain, and it is
/// not very long.
pub open spec fn is_clear(pattern: Seq<char>) -> bool {
    pattern.len() <= SURE_PATTERN_CHARS && has_plain_sets_from(pattern, 0)
}

/// Is it settled what the pattern says of the text? A `?` and a set are
/// settled on texts of ASCII characters alone: `globset` counts bytes.
pub open spec fn is_clear_on(pattern: Seq<char>, subject: Seq<char>) -> bool {
    &&& is_clear(pattern)
    &&& (!pattern.contains('?') && !pattern.contains('[')) || vstd::utf8::is_ascii_chars(subject)
}

/// Does the pattern stand for itself alone?
pub open spec fn is_literal(pattern: Seq<char>) -> bool {
    &&& pattern.len() <= SURE_PATTERN_CHARS
    &&& !pattern.contains('*') && !pattern.contains('?') && !pattern.contains('[')
}

/// Does a set open that nothing ends? Stated where no character is quoted.
pub open spec fn is_open(pattern: Seq<char>) -> bool {
    &&& pattern.contains('[') && !pattern.contains(']')
    &&& !pattern.contains('{') && !pattern.contains('}') && !pattern.contains('\\')
}

/// Calls `globset::Glob::new`, which parses a glob. The error is told by the
/// `Display` text of its kind.
///
/// Whether the glob parses, and what is said against it, depends on the glob
/// alone and is named by `glob_error`. What spells out settled pieces always
/// parses. A glob with an opening bracket, but with no closing one and no
/// backslash, never does. Groups that nest deeply are left out, as they would
/// use up the stack: a spelled pattern has none but the one at its end.
#[verifier::external_body]
pub(crate) fn parse_glob(glob: &str) -> (r: Result<(), String>)
    requires
        exists|pattern: Seq<char>| glob@ == #[trigger] spelled(pattern),
    ensures
        match r {
            Ok(_) => glob_error(glob@) is None,
            Err(cause) => glob_error(glob@) == Some(cause@),
        },
        forall|pieces: Seq<Piece>|
            glob@ == #[trigger] glob_of(pieces) && is_settled(pieces) ==> r is Ok,
        glob@.contains('[') && !glob@.contains(']') && !glob@.contains('\\') ==> r is Err,
{
    match globset::Glob::new(glob) {
        Ok(_) => Ok(()),
        Err(error) => Err(error.kind().to_string()),
    }
}

/// Calls `globset::GlobSet::new` on one glob that parses, which compiles it.
/// The error is told by the `Display` text of its kind.
///
/// Whether the glob compiles, and what is said against it, depends on the glob
/// alone and is named by `set_error`. What spells out settled pieces compiles
/// where it is not too long.
#[verifier::external_body]
pub(crate) fn compile_glob(glob: &str) -> (r: Result<(), String>)
    requires
        exists|pattern: Seq<char>| glob@ == #[trigger] spelled(pattern),
        glob_error(glob@) is None,
    ensures
        match r {
            Ok(_) => set_error(glob@) is None,
            Err(cause) => set_error(glob@) == Some(cause@),
        },
        forall|pieces: Seq<Piece>|
            glob@ == #[trigger] glob_of(pieces) && is_settled(pieces) && glob@.len()
                <= SURE_GLOB_CHARS ==> r is Ok,
{
    match globset::Glob::new(glob).and_then(|parsed| globset::GlobSet::new([parsed])) {
        Ok(_) => Ok(()),
        Err(error) => Err(error.kind().to_string()),
    }
}

/// Calls `globset::GlobSet::is_match` on the set that `globset::GlobSet::new`
/// makes of one glob; gives nothing where the glob does not parse or does not
/// compile.
///
/// Whether the text matches depends on the glob and the text alone and is
/// named by `glob_matches`. What spells out settled pieces, and is not too
/// long, matches the texts that the pieces fit; with a `?` or a set among them
/// this is stated of ASCII texts alone, since each of them matches one byte.
#[verifier::external_body]
pub(crate) fn match_glob(glob: &str, subject: &str) -> (r: Option<bool>)
    requires
        exists|pattern: Seq<char>| glob@ == #[trigger] spelled(pattern),
    ensures
        r == (if glob_error(glob@) is None && set_error(glob@) is None {
            Some(glob_matches(glob@, subject@))
        } else {
            None
        }),
        forall|pieces: Seq<Piece>|
            glob@ == #[trigger] glob_of(pieces) && is_settled(pieces) && glob@.len()
                <= SURE_GLOB_CHARS && (leaves_no_choice(pieces) || vstd::utf8::is_ascii_chars(
                subject@,
            )) ==> r == Some(fits(pieces, subject@)),
{
    match globset::Glob::new(glob).and_then(|parsed| globset::GlobSet::new([parsed])) {
        Ok(set) => Some(set.is_match(subject)),
        Err(_) => None,
    }
}

/// A closing bracket is looked for forwards.
proof fn lemma_next_bracket(pattern: Seq<char>, from: int)
    ensures
        next_bracket(pattern, from) >= from,
        from <= pattern.len() ==> next_bracket(pattern, from) <= pattern.len(),
    decreases pattern.len() - from,
{
    if !(from >= pattern.len() || pattern[from] == ']') {
        lemma_next_bracket(pattern, from + 1);
    }
}

/// A set takes its opening bracket at least, and nothing beyond the pattern.
pub proof fn lemma_set_end(pattern: Seq<char>, i: int)
    requires
        0 <= i < pattern.len(),
    ensures
        i < set_end(pattern, i) <= pattern.len(),
{
    lemma_next_bracket(pattern, first_member(pattern, i) + 1);
}

/// The position behind the set that opens at `i`.
fn find_set_end(cs: &Vec<char>, i: usize) -> (r: usize)
    requires
        i < cs.len(),
    ensures
        r == set_end(cs@, i as int),
        i < r <= cs.len(),
{
    let ghost from = first_member(cs@, i as int) + 1;
    proof {
        lemma_set_end(cs@, i as int);
        lemma_next_bracket(cs@, from);
    }
    let negated: bool = cs.len() - i > 1 && (cs[i + 1] == '!' || cs[i + 1] == '^');
    let ahead: usize = if negated {
        3
    } else {
        2
    };
    if cs.len() - i <= ahead {
        return cs.len();
    }
    let mut k: usize = i + ahead;
    while k < cs.len() && cs[k] != ']'
        invariant
            from <= k <= cs.len(),
            next_bracket(cs@, from) == next_bracket(cs@, k as int),
        decreases cs.len() - k,
    {
        k = k + 1;
    }
    if k < cs.len() {
        k + 1
    } else {
        k
    }
}

/// Adds to `out` what stands in `s` between two positions.
fn add_part(out: &mut String, s: &str, from: usize, to: usize)
    requires
        from <= to <= s@.len(),
    ensures
        final(out)@ == old(out)@ + s@.subrange(from as int, to as int),
{
    if from < to {
        out.append(s.substring_char(from, to));
    } else {
        assert(old(out)@ + s@.subrange(from as int, to as int) =~= old(out)@);
    }
}

/// A pattern spelled for `globset`.
pub fn spelling(pattern: &str) -> (r: String)
    ensures
        r@ == spelled(pattern@),
{
    let cs: Vec<char> = text::chars_of(pattern);
    let mut out: String = String::new();
    // What stands between `start` and `i` is spelled as it is, and not yet
    // added.
    let mut start: usize = 0;
    let mut i: usize = 0;
    assert(out@ + pattern@.subrange(0, 0) + spelled_from(pattern@, 0) =~= spelled_from(pattern@, 0));
    while i < cs.len()
        invariant
            cs@ == pattern@,
            start <= i <= cs.len(),
            out@ + pattern@.subrange(start as int, i as int) + spelled_from(pattern@, i as int)
                == spelled_from(pattern@, 0),
        decreases cs.len() - i,
    {
        let ghost pending = pattern@.subrange(start as int, i as int);
        let ghost before = out@;
        if cs[i] == '[' {
            let end: usize = find_set_end(&cs, i);
            proof {
                let set = pattern@.subrange(i as int, end as int);
                let rest = spelled_from(pattern@, end as int);
                assert(pattern@.subrange(start as int, end as int) =~= pending + set);
                assert(before + (pending + set) + rest =~= before + pending + (set + rest));
            }
            i = end;
        } else if cs[i] == '*' && i < cs.len() - 1 && cs[i + 1] == '*' {
            add_part(&mut out, pattern, start, i);
            start = i + 1;
            i = i + 1;
            assert(out@ + pattern@.subrange(start as int, i as int) =~= out@);
        } else {
            let c: char = cs[i];
            let ghost rest = spelled_from(pattern@, i + 1);
            if c == '{' || c == '}' || c == '\\' {
                add_part(&mut out, pattern, start, i);
                out.append("\\");
                start = i;
                proof {
                    reveal_strlit("\\");
                    assert(pattern@.subrange(start as int, i + 1) =~= seq![c]);
                    assert(before + pending + seq!['\\'] + seq![c] + rest =~= before + pending + (
                    seq!['\\', c] + rest));
                    assert("\\"@ =~= seq!['\\']);
                }
            } else {
                proof {
                    assert(pattern@.subrange(start as int, i + 1) =~= pending + seq![c]);
                    assert(before + (pending + seq![c]) + rest =~= before + pending + (seq![c]
                        + rest));
                }
            }
            i = i + 1;
        }
    }
    proof {
        let pending = pattern@.subrange(start as int, i as int);
        assert(out@ + pending + spelled_from(pattern@, i as int) =~= out@ + pending);
    }
    add_part(&mut out, pattern, start, i);
    out.append("{}");
    proof {
        reveal_strlit("{}");
        assert("{}"@ =~= seq!['{', '}']);
    }
    out
}

/// One more piece in front of settled pieces.
proof fn lemma_one_more_piece(piece: Piece, rest: Seq<Piece>)
    requires
        is_settled(rest),
        piece matches Piece::OneOf { negated, body } ==> is_settled_set(negated, body),
        !(piece is Any && rest.len() > 0 && rest[0] is Any),
    ensures
        is_settled(seq![piece] + rest),
        pieces_text(seq![piece] + rest) == piece_text(piece) + pieces_text(rest),
        leaves_no_choice(rest) && !(piece is One) && !(piece is OneOf) ==> leaves_no_choice(
            seq![piece] + rest,
        ),
{
    let pieces = seq![piece] + rest;
    assert(pieces.drop_first() =~= rest);
    assert forall|k: int| 0 <= k < pieces.len() - 1 implies !((#[trigger] pieces[k]) is Any
        && pieces[k + 1] is Any) by {
        if k > 0 {
            assert(pieces[k] == rest[k - 1]);
            assert(pieces[k + 1] == rest[k]);
        }
    }
    assert forall|k: int| 0 <= k < pieces.len() implies ((
    #[trigger] pieces[k]) matches Piece::OneOf { negated, body } ==> is_settled_set(negated, body)) by {
        if k > 0 {
            assert(pieces[k] == rest[k - 1]);
        }
    }
    if leaves_no_choice(rest) && !(piece is One) && !(piece is OneOf) {
        assert forall|k: int| 0 <= k < pieces.len() implies !((#[trigger] pieces[k]) is One)
            && !(pieces[k] is OneOf) by {
            if k > 0 {
                assert(pieces[k] == rest[k - 1]);
            }
        }
    }
}

/// A plain set is spelled as it is.
proof fn lemma_set_text(pattern: Seq<char>, i: int)
    requires
        0 <= i < pattern.len(),
        pattern[i] == '[',
        has_plain_sets_from(pattern, i),
    ensures
        piece_text(set_at(pattern, i)) == pattern.subrange(i, set_end(pattern, i)),
        set_at(pattern, i) matches Piece::OneOf { negated, body } && is_settled_set(negated, body),
{
    let first = first_member(pattern, i);
    let close = next_bracket(pattern, first + 1);
    lemma_next_bracket(pattern, first + 1);
    let body = pattern.subrange(first, close);
    assert(body[0] == pattern[first]);
    assert(pattern[close] == ']') by {
        lemma_bracket_is_there(pattern, first + 1);
    }
    assert(piece_text(set_at(pattern, i)) =~= pattern.subrange(i, close + 1));
}

/// Where a closing bracket is found, there is one.
proof fn lemma_bracket_is_there(pattern: Seq<char>, from: int)
    ensures
        next_bracket(pattern, from) < pattern.len() ==> pattern[next_bracket(pattern, from)] == ']',
    decreases pattern.len() - from,
{
    if !(from >= pattern.len() || pattern[from] == ']') {
        lemma_bracket_is_there(pattern, from + 1);
    }
}

/// What a pattern with plain sets spells out, from position `i` on.
proof fn lemma_pieces(pattern: Seq<char>, i: int)
    requires
        0 <= i <= pattern.len(),
        has_plain_sets_from(pattern, i),
    ensures
        spelled_from(pattern, i) == pieces_text(pieces_from(pattern, i)),
        is_settled(pieces_from(pattern, i)),
        pieces_from(pattern, i).len() > 0 && pieces_from(pattern, i)[0] is Any ==> pattern[i] == '*',
        !pattern.contains('?') && !pattern.contains('[') ==> leaves_no_choice(
            pieces_from(pattern, i),
        ),
    decreases pattern.len() - i,
{
    if i < pattern.len() {
        if pattern[i] == '[' {
            lemma_set_end(pattern, i);
            lemma_set_text(pattern, i);
            lemma_pieces(pattern, set_end(pattern, i));
            lemma_one_more_piece(set_at(pattern, i), pieces_from(pattern, set_end(pattern, i)));
        } else {
            lemma_pieces(pattern, i + 1);
            if !(pattern[i] == '*' && i + 1 < pattern.len() && pattern[i + 1] == '*') {
                lemma_one_more_piece(piece_of(pattern[i]), pieces_from(pattern, i + 1));
            }
        }
    }
}

/// A spelling is at most twice as long as what is spelled.
proof fn lemma_spelled_length(pattern: Seq<char>, i: int)
    requires
        0 <= i <= pattern.len(),
    ensures
        spelled_from(pattern, i).len() <= 2 * (pattern.len() - i),
    decreases pattern.len() - i,
{
    if i < pattern.len() {
        if pattern[i] == '[' {
            lemma_set_end(pattern, i);
            lemma_spelled_length(pattern, set_end(pattern, i));
        } else {
            lemma_spelled_length(pattern, i + 1);
        }
    }
}

/// A clear pattern spells out its pieces.
proof fn lemma_clear_pattern(pattern: Seq<char>)
    requires
        is_clear(pattern),
    ensures
        spelled(pattern) == glob_of(pieces_of(pattern)),
        is_settled(pieces_of(pattern)),
        spelled(pattern).len() <= SURE_GLOB_CHARS,
        !pattern.contains('?') && !pattern.contains('[') ==> leaves_no_choice(pieces_of(pattern)),
{
    lemma_pieces(pattern, 0);
    lemma_spelled_length(pattern, 0);
}

/// A pattern without sets has no set that is not plain.
proof fn lemma_no_sets(pattern: Seq<char>, i: int)
    requires
        !pattern.contains('['),
    ensures
        has_plain_sets_from(pattern, i),
    decreases pattern.len() - i,
{
    if 0 <= i < pattern.len() {
        lemma_no_sets(pattern, i + 1);
    }
}

/// Where no character is quoted, a spelling holds no other characters than the
/// pattern.
proof fn lemma_spelled_chars(pattern: Seq<char>, i: int, c: char)
    requires
        0 <= i <= pattern.len(),
        !pattern.contains('{') && !pattern.contains('}') && !pattern.contains('\\'),
        !pattern.contains(c),
    ensures
        !spelled_from(pattern, i).contains(c),
    decreases pattern.len() - i,
{
    if i < pattern.len() {
        let whole = spelled_from(pattern, i);
        if pattern[i] == '[' {
            lemma_set_end(pattern, i);
            let end = set_end(pattern, i);
            lemma_spelled_chars(pattern, end, c);
            let rest = spelled_from(pattern, end);
            assert forall|k: int| 0 <= k < whole.len() implies #[trigger] whole[k] != c by {
                if k < end - i {
                    assert(whole[k] == pattern[i + k]);
                } else {
                    assert(whole[k] == rest[k - (end - i)]);
                }
            }
        } else {
            lemma_spelled_chars(pattern, i + 1, c);
            let rest = spelled_from(pattern, i + 1);
            if !(pattern[i] == '*' && i + 1 < pattern.len() && pattern[i + 1] == '*') {
                assert(!is_quoted(pattern[i]));
                assert forall|k: int| 0 <= k < whole.len() implies #[trigger] whole[k] != c by {
                    if k > 0 {
                        assert(whole[k] == rest[k - 1]);
                    }
                }
            }
        }
    }
}

/// An opening bracket is spelled too.
proof fn lemma_spelled_bracket(pattern: Seq<char>, i: int, at: int)
    requires
        0 <= i <= at < pattern.len(),
        pattern[at] == '[',
    ensures
        spelled_from(pattern, i).contains('['),
    decreases at - i,
{
    let whole = spelled_from(pattern, i);
    if pattern[i] == '[' {
        lemma_set_end(pattern, i);
        assert(whole[0] == '[');
    } else {
        lemma_spelled_bracket(pattern, i + 1, at);
        let rest = spelled_from(pattern, i + 1);
        let k = choose|k: int| 0 <= k < rest.len() && rest[k] == '[';
        if !(pattern[i] == '*' && i + 1 < pattern.len() && pattern[i + 1] == '*') {
            assert(whole[k + (whole.len() - rest.len())] == '[');
        }
    }
}

/// A pattern with a set that nothing ends is spelled as such.
proof fn lemma_open_pattern(pattern: Seq<char>)
    requires
        is_open(pattern),
    ensures
        spelled(pattern).contains('['),
        !spelled(pattern).contains(']'),
        !spelled(pattern).contains('\\'),
{
    let front = spelled_from(pattern, 0);
    let at = choose|at: int| 0 <= at < pattern.len() && pattern[at] == '[';
    lemma_spelled_bracket(pattern, 0, at);
    lemma_spelled_chars(pattern, 0, ']');
    lemma_spelled_chars(pattern, 0, '\\');
    let k = choose|k: int| 0 <= k < front.len() && front[k] == '[';
    assert(spelled(pattern)[k] == '[');
    assert forall|j: int| 0 <= j < spelled(pattern).len() implies #[trigger] spelled(pattern)[j]
        != ']' && spelled(pattern)[j] != '\\' by {
        if j < front.len() {
            assert(spelled(pattern)[j] == front[j]);
        }
    }
}

/// Does `globset` take the pattern? If not, what it says against it.
pub fn check(pattern: &str) -> (r: Result<(), String>)
    ensures
        match r {
            Ok(_) => pattern_error(pattern@) is None,
            Err(cause) => pattern_error(pattern@) == Some(cause@),
        },
        is_clear(pattern@) ==> r is Ok,
        is_open(pattern@) ==> r is Err,
{
    proof {
        if is_clear(pattern@) {
            lemma_clear_pattern(pattern@);
        }
        if is_open(pattern@) {
            lemma_open_pattern(pattern@);
        }
    }
    let glob: String = spelling(pattern);
    match parse_glob(glob.as_str()) {
        Ok(_) => compile_glob(glob.as_str()),
        Err(reason) => Err(reason),
    }
}

/// Does the text match the pattern?
pub fn accepts(pattern: &str, subject: &str) -> (r: bool)
    ensures
        r == pattern_accepts(pattern@, subject@),
        is_clear_on(pattern@, subject@) ==> r == fits(pieces_of(pattern@), subject@),
        is_literal(pattern@) ==> r == (pattern@ == subject@),
{
    let glob: String = spelling(pattern);
    proof {
        if is_literal(pattern@) {
            lemma_no_sets(pattern@, 0);
            law_literal_pattern(pattern@, subject@);
        }
        if is_clear(pattern@) {
            lemma_clear_pattern(pattern@);
        }
    }
    match match_glob(glob.as_str(), subject) {
        Some(hit) => hit,
        None => false,
    }
}

/// What a pattern without `*`, `?` and sets has from position `i` on fits that
/// text alone.
proof fn lemma_literal(pattern: Seq<char>, i: int, subject: Seq<char>)
    requires
        0 <= i <= pattern.len(),
        !pattern.contains('*'),
        !pattern.contains('?'),
        !pattern.contains('['),
    ensures
        fits(pieces_from(pattern, i), subject) == (subject == pattern.skip(i)),
    decreases pattern.len() - i,
{
    let pieces = pieces_from(pattern, i);
    let rest = pieces_from(pattern, i + 1);
    if i < pattern.len() {
        assert(pieces =~= seq![Piece::Itself(pattern[i])] + rest);
        assert(pieces.drop_first() =~= rest);
        assert(pattern.skip(i).skip(1) =~= pattern.skip(i + 1));
        if subject.len() > 0 {
            lemma_literal(pattern, i + 1, subject.skip(1));
            if fits(pieces, subject) {
                assert(subject =~= seq![subject[0]] + subject.skip(1));
                assert(pattern.skip(i) =~= seq![pattern[i]] + pattern.skip(i + 1));
            }
        }
    } else {
        assert(pattern.skip(i) =~= seq![]);
        assert(subject.len() == 0 ==> subject =~= seq![]);
    }
}

/// A pattern without `*`, `?` and sets matches itself alone: dots, braces and
/// backslashes are no wildcards, and case counts.
pub proof fn law_literal_pattern(pattern: Seq<char>, subject: Seq<char>)
    requires
        is_literal(pattern),
    ensures
        fits(pieces_of(pattern), subject) == (pattern == subject),
{
    lemma_literal(pattern, 0, subject);
    assert(pattern.skip(0) =~= pattern);
}

/// Any sequence of characters may stand where a pattern that is literal
/// otherwise has one `*`.
pub proof fn law_star_is_any_sequence(
    before: Seq<char>,
    middle: Seq<char>,
    after: Seq<char>,
    subject: Seq<char>,
)
    requires
        is_literal(before),
        is_literal(after),
    ensures
        fits(pieces_of(before + seq!['*'] + after), before + middle + after),
        fits(pieces_of(before + seq!['*'] + after), subject) ==> exists|inner: Seq<char>|
            subject == before + inner + after,
{
    let pattern = before + seq!['*'] + after;
    lemma_star_from(before, after, 0, before + middle + after);
    lemma_star_from(before, after, 0, subject);
    assert(before.skip(0) =~= before);
    if fits(pieces_of(pattern), subject) {
        let inner = choose|inner: Seq<char>| subject == before.skip(0) + inner + after;
        assert(subject == before + inner + after);
    }
}

/// What a pattern with one `*` fits, from position `i` of its start on.
proof fn lemma_star_from(before: Seq<char>, after: Seq<char>, i: int, subject: Seq<char>)
    requires
        0 <= i <= before.len(),
        is_literal(before),
        is_literal(after),
    ensures
        fits(pieces_from(before + seq!['*'] + after, i), subject) <==> exists|inner: Seq<char>|
            subject == #[trigger] (before.skip(i) + inner) + after,
    decreases before.len() - i,
{
    let pattern = before + seq!['*'] + after;
    let pieces = pieces_from(pattern, i);
    let rest = pieces_from(pattern, i + 1);
    let n = before.len() as int;
    if i < n {
        assert(pattern[i] == before[i]);
        assert(before.contains(before[i]));
        assert(pieces.drop_first() =~= rest);
        assert(pieces[0] == Piece::Itself(before[i]));
        assert(before.skip(i) =~= seq![before[i]] + before.skip(i + 1));
        if subject.len() > 0 {
            lemma_star_from(before, after, i + 1, subject.skip(1));
            if fits(pieces, subject) {
                let inner = choose|inner: Seq<char>|
                    subject.skip(1) == #[trigger] (before.skip(i + 1) + inner) + after;
                assert(subject =~= seq![subject[0]] + subject.skip(1));
                assert(subject =~= (before.skip(i) + inner) + after);
            }
        }
        if exists|inner: Seq<char>| subject == #[trigger] (before.skip(i) + inner) + after {
            let inner = choose|inner: Seq<char>|
                subject == #[trigger] (before.skip(i) + inner) + after;
            assert(subject[0] == before[i]);
            assert(subject.skip(1) =~= (before.skip(i + 1) + inner) + after);
        }
    } else {
        assert(pattern[i] == '*');
        if i + 1 < pattern.len() {
            assert(pattern[i + 1] == after[0]);
            assert(after.contains(after[0]));
        }
        assert(pieces.drop_first() =~= rest);
        assert(before.skip(i) =~= seq![]);
        assert forall|k: int| 0 <= k <= subject.len() implies fits(
            rest,
            #[trigger] subject.skip(k),
        ) == (subject.skip(k) == after) by {
            assert(pattern.skip(n + 1) =~= after);
            lemma_shifted(pattern, n + 1, after, 0);
            lemma_literal(after, 0, subject.skip(k));
            assert(after.skip(0) =~= after);
        }
        if fits(pieces, subject) {
            let k = choose|k: int| 0 <= k <= subject.len() && fits(rest, #[trigger] subject.skip(k));
            assert(subject =~= (before.skip(i) + subject.take(k)) + after);
        }
        if exists|inner: Seq<char>| subject == #[trigger] (before.skip(i) + inner) + after {
            let inner = choose|inner: Seq<char>|
                subject == #[trigger] (before.skip(i) + inner) + after;
            assert(subject.skip(inner.len() as int) =~= after);
        }
    }
}

/// The pieces of what stands behind a position are those from there on, where
/// no sets do.
proof fn lemma_shifted(pattern: Seq<char>, from: int, tail: Seq<char>, i: int)
    requires
        0 <= from <= pattern.len(),
        tail == pattern.skip(from),
        !tail.contains('['),
        0 <= i <= tail.len(),
    ensures
        pieces_from(pattern, from + i) == pieces_from(tail, i),
    decreases tail.len() - i,
{
    if i < tail.len() {
        assert(tail[i] == pattern[from + i]);
        lemma_shifted(pattern, from, tail, i + 1);
    }
}

/// What a pattern with a literal start fits: the start itself, and behind it
/// what the rest of the pattern fits.
proof fn lemma_literal_start(before: Seq<char>, tail: Seq<char>, i: int, subject: Seq<char>)
    requires
        0 <= i <= before.len(),
        is_literal(before),
    ensures
        fits(pieces_from(before + tail, i), subject) <==> {
            let m = before.len() - i;
            &&& subject.len() >= m
            &&& subject.take(m) == before.skip(i)
            &&& fits(pieces_from(before + tail, before.len() as int), subject.skip(m))
        },
    decreases before.len() - i,
{
    let pattern = before + tail;
    let pieces = pieces_from(pattern, i);
    let rest = pieces_from(pattern, i + 1);
    let m = before.len() - i;
    if i < before.len() {
        assert(pattern[i] == before[i]);
        assert(before.contains(before[i]));
        assert(pieces.drop_first() =~= rest);
        assert(pieces[0] == Piece::Itself(before[i]));
        assert(before.skip(i) =~= seq![before[i]] + before.skip(i + 1));
        if subject.len() > 0 {
            lemma_literal_start(before, tail, i + 1, subject.skip(1));
            if subject.len() >= m {
                assert(subject.take(m) =~= seq![subject[0]] + subject.skip(1).take(m - 1));
                assert(subject.skip(m) =~= subject.skip(1).skip(m - 1));
                if subject.take(m) == before.skip(i) {
                    assert(subject[0] == subject.take(m)[0]);
                    assert(subject.skip(1).take(m - 1) =~= subject.take(m).skip(1));
                    assert(before.skip(i).skip(1) =~= before.skip(i + 1));
                }
            }
        }
    } else {
        assert(subject.take(0) =~= before.skip(i));
        assert(subject.skip(0) =~= subject);
    }
}

/// Exactly one character, and any, may stand where a pattern that is literal
/// otherwise has a `?`.
pub proof fn law_question_mark_is_one_character(
    before: Seq<char>,
    after: Seq<char>,
    subject: Seq<char>,
)
    requires
        is_literal(before),
        is_literal(after),
    ensures
        fits(pieces_of(before + seq!['?'] + after), subject) <==> exists|c: char|
            subject == #[trigger] before.push(c) + after,
{
    let tail = seq!['?'] + after;
    let pattern = before + seq!['?'] + after;
    let n = before.len() as int;
    assert(pattern =~= before + tail);
    assert(pattern[n] == '?');
    lemma_literal_start(before, tail, 0, subject);
    assert(before.skip(0) =~= before);
    let pieces = pieces_from(pattern, n);
    let rest = pieces_from(pattern, n + 1);
    assert(pieces.drop_first() =~= rest);
    assert(pieces[0] == Piece::One);
    assert(pattern.skip(n + 1) =~= after);
    lemma_shifted(pattern, n + 1, after, 0);
    assert(after.skip(0) =~= after);
    if subject.len() > n {
        lemma_literal(after, 0, subject.skip(n).skip(1));
        assert(subject =~= subject.take(n).push(subject[n]) + subject.skip(n).skip(1));
    }
    if fits(pieces_of(pattern), subject) {
        assert(subject == before.push(subject[n]) + after);
    }
    if exists|c: char| subject == #[trigger] before.push(c) + after {
        let c = choose|c: char| subject == #[trigger] before.push(c) + after;
        assert(subject.take(n) =~= before);
        assert(subject.skip(n).skip(1) =~= after);
    }
}

/// A plain set has no closing bracket.
proof fn lemma_plain_set_is_open(body: Seq<char>, k: int)
    requires
        is_plain_set(body),
        0 <= k < body.len(),
    ensures
        body[k] != ']',
    decreases body.len(),
{
    if is_range(body) {
        if k >= 3 {
            assert(body.skip(3)[k - 3] == body[k]);
            lemma_plain_set_is_open(body.skip(3), k - 3);
        }
    } else if k >= 1 {
        assert(body.skip(1)[k - 1] == body[k]);
        lemma_plain_set_is_open(body.skip(1), k - 1);
    }
}

/// The closing bracket is found.
proof fn lemma_bracket_is(pattern: Seq<char>, from: int, close: int)
    requires
        0 <= from <= close < pattern.len(),
        pattern[close] == ']',
        forall|k: int| from <= k < close ==> #[trigger] pattern[k] != ']',
    ensures
        next_bracket(pattern, from) == close,
    decreases close - from,
{
    if from < close {
        assert(pattern[from] != ']');
        lemma_bracket_is(pattern, from + 1, close);
    }
}

/// A set in brackets, with a `!` before its members where it is negated.
pub open spec fn bracketed(negated: bool, body: Seq<char>) -> Seq<char> {
    seq!['['] + (if negated {
        seq!['!']
    } else {
        seq![]
    }) + body + seq![']']
}

/// The pieces of a set in brackets and of a literal text behind it.
proof fn lemma_set_pieces(before: Seq<char>, negated: bool, body: Seq<char>, after: Seq<char>)
    requires
        is_literal(after),
        body.len() > 0,
        is_plain_set(body),
        negated || (body[0] != '!' && body[0] != '^'),
    ensures
        pieces_from(before + (bracketed(negated, body) + after), before.len() as int) == seq![
            Piece::OneOf { negated, body },
        ] + pieces_from(after, 0),
{
    let set = bracketed(negated, body);
    let pattern = before + (set + after);
    let n = before.len() as int;
    let first = n + 1 + if negated {
        1int
    } else {
        0int
    };
    let close = first + body.len();
    assert(set[0] == '[' && set.last() == ']');
    assert(set.len() == close + 1 - n);
    assert forall|k: int| 0 <= k < body.len() implies #[trigger] body[k] == pattern[first + k] by {
        assert(set[first - n + k] == body[k]);
    }
    assert(pattern[n] == '[');
    if negated {
        assert(set[1] == '!');
    } else {
        assert(body[0] == pattern[first]);
    }
    assert(first_member(pattern, n) == first);
    assert(pattern[close] == ']');
    assert forall|k: int| first + 1 <= k < close implies #[trigger] pattern[k] != ']' by {
        assert(body[k - first] == pattern[k]);
        lemma_plain_set_is_open(body, k - first);
    }
    lemma_bracket_is(pattern, first + 1, close);
    assert(pattern.subrange(first, close) =~= body);
    assert(pattern.skip(close + 1) =~= after);
    lemma_shifted(pattern, close + 1, after, 0);
}

/// Exactly one character of a set may stand where a pattern that is literal
/// otherwise has the set in brackets, and exactly one that is not in it where a
/// `!` stands before its members.
pub proof fn law_set_is_one_character(
    before: Seq<char>,
    negated: bool,
    body: Seq<char>,
    after: Seq<char>,
    subject: Seq<char>,
)
    requires
        is_literal(before),
        is_literal(after),
        body.len() > 0,
        is_plain_set(body),
        negated || (body[0] != '!' && body[0] != '^'),
    ensures
        fits(pieces_of(before + (bracketed(negated, body) + after)), subject) <==> exists|c: char|
            in_set(body, c) != negated && subject == #[trigger] before.push(c) + after,
{
    let tail = bracketed(negated, body) + after;
    let pattern = before + tail;
    let n = before.len() as int;
    let pieces = pieces_from(pattern, n);
    let rest = pieces_from(after, 0);
    lemma_set_pieces(before, negated, body, after);
    assert(pieces.drop_first() =~= rest);
    lemma_literal_start(before, tail, 0, subject);
    assert(before.skip(0) =~= before);
    assert(after.skip(0) =~= after);
    if subject.len() > n {
        lemma_literal(after, 0, subject.skip(n).skip(1));
        assert(subject =~= subject.take(n).push(subject[n]) + subject.skip(n).skip(1));
        assert(subject.skip(n)[0] == subject[n]);
    }
    if fits(pieces_of(pattern), subject) {
        assert(subject == before.push(subject[n]) + after);
    }
    if exists|c: char|
        in_set(body, c) != negated && subject == #[trigger] before.push(c) + after {
        let c = choose|c: char|
            in_set(body, c) != negated && subject == #[trigger] before.push(c) + after;
        assert(subject.take(n) =~= before);
        assert(subject[n] == c);
        assert(subject.skip(n).skip(1) =~= after);
    }
}

/// A set without ranges holds its characters and no others.
pub proof fn law_set_members(body: Seq<char>, c: char)
    requires
        !body.contains('-'),
    ensures
        in_set(body, c) <==> body.contains(c),
    decreases body.len(),
{
    if body.len() > 0 {
        if is_range(body) {
            assert(body.contains(body[1]));
        }
        let rest = body.skip(1);
        assert forall|d: char| rest.contains(d) implies body.contains(d) by {
            let k = choose|k: int| 0 <= k < rest.len() && rest[k] == d;
            assert(body[k + 1] == d);
        }
        law_set_members(rest, c);
        if body.contains(c) && c != body[0] {
            let k = choose|k: int| 0 <= k < body.len() && body[k] == c;
            assert(rest[k - 1] == c);
        }
        if c == body[0] {
            assert(body.contains(body[0]));
        }
    }
}

/// A range at the start of a set holds the characters from its first to its
/// last, and the set holds those and what stands behind the range.
pub proof fn law_set_range(low: char, high: char, rest: Seq<char>, c: char)
    ensures
        in_set(seq![low, '-', high] + rest, c) <==> low <= c && c <= high || in_set(rest, c),
{
    let body = seq![low, '-', high] + rest;
    assert(body.skip(3) =~= rest);
}

} // verus!
