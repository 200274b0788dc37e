//! Line normalization: comment stripping, whitespace trimming, the fixed
//! space-substitution rule, and lowercasing for the matching key.
//!
//! A raw line is normalized in four steps: everything from the first `#`
//! character onward is dropped, the remainder is trimmed of leading and
//! trailing whitespace, each non-breaking space (U+00A0) is replaced by a
//! plain space (deliberately a straight per-character substitution, not a
//! general whitespace collapse — tabs and runs of spaces stay as they are),
//! and finally the result is lowercased to form the matching key. The
//! pre-lowercase form is the candidate output.

use vstd::prelude::*;
use vstd::string::StrSliceExecFns;

verus! {

/// The characters that carry the Unicode `White_Space` property, the set
/// that `str::trim` removes from the ends of a string.
pub open spec fn is_space_spec(c: char) -> bool {
    let u = c as u32;
    ||| u == 0x09
    ||| u == 0x0A
    ||| u == 0x0B
    ||| u == 0x0C
    ||| u == 0x0D
    ||| u == 0x20
    ||| u == 0x85
    ||| u == 0xA0
    ||| u == 0x1680
    ||| (0x2000 <= u && u <= 0x200A)
    ||| u == 0x2028
    ||| u == 0x2029
    ||| u == 0x202F
    ||| u == 0x205F
    ||| u == 0x3000
}

/// Decides whether a character counts as whitespace for trimming.
pub fn is_space(c: char) -> (r: bool)
    ensures
        r == is_space_spec(c),
{
    let u = c as u32;
    u == 0x09 || u == 0x0A || u == 0x0B || u == 0x0C || u == 0x0D || u == 0x20 || u == 0x85
        || u == 0xA0 || u == 0x1680 || (0x2000 <= u && u <= 0x200A) || u == 0x2028 || u == 0x2029
        || u == 0x202F || u == 0x205F || u == 0x3000
}

/// Index of the first `#` in `s`, or `s.len()` if there is none.
pub open spec fn first_hash(s: Seq<char>) -> int
    decreases s.len(),
{
    if s.len() == 0 {
        0
    } else if s[0] == '#' {
        0
    } else {
        1 + first_hash(s.drop_first())
    }
}

/// The part of a line that precedes its first `#`, if any: a `#` begins a
/// comment that is dropped together with everything after it.
pub open spec fn strip_comment_spec(s: Seq<char>) -> Seq<char> {
    s.take(first_hash(s))
}

pub proof fn lemma_first_hash(s: Seq<char>)
    ensures
        0 <= first_hash(s) <= s.len(),
        forall|j: int| 0 <= j < first_hash(s) ==> s[j] != '#',
        first_hash(s) < s.len() ==> s[first_hash(s)] == '#',
    decreases s.len(),
{
    if s.len() == 0 {
    } else if s[0] == '#' {
    } else {
        lemma_first_hash(s.drop_first());
        assert forall|j: int| 0 <= j < first_hash(s) implies s[j] != '#' by {
            if j > 0 {
                assert(s.drop_first()[j - 1] == s[j]);
            }
        }
        if first_hash(s) < s.len() {
            assert(s.drop_first()[first_hash(s.drop_first())] == s[first_hash(s)]);
        }
    }
}

/// The split point before the first `#` is unique: any index with no `#`
/// before it and a `#` (or the end) at it equals `first_hash`.
pub proof fn lemma_first_hash_unique(s: Seq<char>, i: int)
    requires
        0 <= i <= s.len(),
        forall|j: int| 0 <= j < i ==> s[j] != '#',
        i < s.len() ==> s[i] == '#',
    ensures
        i == first_hash(s),
{
    lemma_first_hash(s);
    if i < first_hash(s) {
        assert(s[i] != '#');
    } else if first_hash(s) < i {
        assert(s[first_hash(s)] == '#');
    }
}

/// `s` with its leading whitespace removed.
pub open spec fn trim_front_spec(s: Seq<char>) -> Seq<char>
    decreases s.len(),
{
    if s.len() > 0 && is_space_spec(s[0]) {
        trim_front_spec(s.drop_first())
    } else {
        s
    }
}

/// `s` with its trailing whitespace removed.
pub open spec fn trim_back_spec(s: Seq<char>) -> Seq<char>
    decreases s.len(),
{
    if s.len() > 0 && is_space_spec(s[s.len() - 1]) {
        trim_back_spec(s.drop_last())
    } else {
        s
    }
}

/// `s` with whitespace removed from both ends.
pub open spec fn trim_spec(s: Seq<char>) -> Seq<char> {
    trim_back_spec(trim_front_spec(s))
}

pub proof fn lemma_trim_front_at(s: Seq<char>, i: int)
    requires
        0 <= i <= s.len(),
        forall|j: int| 0 <= j < i ==> is_space_spec(s[j]),
        i < s.len() ==> !is_space_spec(s[i]),
    ensures
        trim_front_spec(s) == s.subrange(i, s.len() as int),
    decreases i,
{
    if i == 0 {
        assert(s.subrange(0, s.len() as int) =~= s);
    } else {
        assert(is_space_spec(s[0]));
        assert forall|j: int| 0 <= j < i - 1 implies is_space_spec(s.drop_first()[j]) by {
            assert(s.drop_first()[j] == s[j + 1]);
        }
        lemma_trim_front_at(s.drop_first(), i - 1);
        assert(s.drop_first().subrange(i - 1, s.drop_first().len() as int) =~= s.subrange(
            i,
            s.len() as int,
        ));
    }
}

pub proof fn lemma_trim_back_at(s: Seq<char>, e: int)
    requires
        0 <= e <= s.len(),
        forall|j: int| e <= j < s.len() ==> is_space_spec(s[j]),
        e > 0 ==> !is_space_spec(s[e - 1]),
    ensures
        trim_back_spec(s) == s.subrange(0, e),
    decreases s.len() - e,
{
    if e == s.len() {
        assert(s.subrange(0, e) =~= s);
    } else {
        assert(is_space_spec(s[s.len() - 1]));
        lemma_trim_back_at(s.drop_last(), e);
        assert(s.drop_last().subrange(0, e) =~= s.subrange(0, e));
    }
}

/// The fixed per-character substitution applied to the trimmed content: a
/// non-breaking space (U+00A0) is replaced by a plain space; every other
/// character stands. It is a straight substitution of one character, not a
/// general collapse of whitespace runs: tabs and repeated spaces survive.
pub open spec fn space_subst(c: char) -> char {
    if c == '\u{00A0}' {
        ' '
    } else {
        c
    }
}

/// The space-substitution rule applied to every character of `s`.
pub open spec fn subst_spaces_spec(s: Seq<char>) -> Seq<char> {
    s.map_values(|c: char| space_subst(c))
}

/// The candidate output of a raw line: comment stripped, ends trimmed, the
/// space substitution applied. This is the value stored and emitted when a
/// line is accepted; lowercasing it yields the matching key.
pub open spec fn candidate_spec(line: Seq<char>) -> Seq<char> {
    subst_spaces_spec(trim_spec(strip_comment_spec(line)))
}

/// What `str::to_lowercase` returns for a given character sequence. The
/// result depends on the characters alone, so it can be named, though its
/// value is pinned down nowhere in this crate.
pub uninterp spec fn lower_of(s: Seq<char>) -> Seq<char>;

/// Relies on `str::to_lowercase`: the Unicode lowercase mapping of the
/// string, a function of its characters alone.
#[verifier::external_body]
pub(crate) fn lowercase(s: &str) -> (r: String)
    ensures
        r@ == lower_of(s@),
{
    s.to_lowercase()
}

/// The matching key of a raw line: its candidate output, lowercased. The
/// key is what the length filter, the keyword filter and the duplicate
/// check all operate on.
pub open spec fn key_spec(line: Seq<char>) -> Seq<char> {
    lower_of(candidate_spec(line))
}

fn find_first_hash(s: &str, n: usize) -> (i: usize)
    requires
        n == s@.len(),
    ensures
        i == first_hash(s@),
{
    let mut i: usize = 0;
    #[verifier::loop_isolation(false)]
    while i < n && s.get_char(i) != '#'
        invariant
            i <= n,
            forall|j: int| 0 <= j < i ==> s@[j] != '#',
        decreases n - i,
    {
        i += 1;
    }
    proof {
        lemma_first_hash_unique(s@, i as int);
    }
    i
}

/// Computes the candidate output of one raw line.
pub fn normalize_line(line: &str) -> (r: String)
    ensures
        r@ == candidate_spec(line@),
{
    let n = line.unicode_len();
    let h = find_first_hash(line, n);
    let ghost stripped = strip_comment_spec(line@);
    proof {
        lemma_first_hash(line@);
        assert(stripped =~= line@.take(h as int));
    }
    let mut start: usize = 0;
    #[verifier::loop_isolation(false)]
    while start < h && is_space(line.get_char(start))
        invariant
            start <= h,
            forall|j: int| 0 <= j < start ==> is_space_spec(line@[j]),
        decreases h - start,
    {
        start += 1;
    }
    let mut end: usize = h;
    #[verifier::loop_isolation(false)]
    while end > start && is_space(line.get_char(end - 1))
        invariant
            start <= end <= h,
            forall|j: int| end <= j < h ==> is_space_spec(line@[j]),
        decreases end,
    {
        end -= 1;
    }
    let sub = line.substring_char(start, end);
    proof {
        lemma_trim_front_at(stripped, start as int);
        let t = stripped.subrange(start as int, stripped.len() as int);
        assert forall|j: int| (end - start) <= j < t.len() implies is_space_spec(t[j]) by {
            assert(t[j] == line@[start + j]);
        }
        lemma_trim_back_at(t, end - start);
        assert(t.subrange(0, end - start) =~= line@.subrange(start as int, end as int));
    }
    let m = end - start;
    let mut out = String::new();
    let mut i: usize = 0;
    #[verifier::loop_isolation(false)]
    while i < m
        invariant
            i <= m,
            out@ == subst_spaces_spec(sub@.take(i as int)),
        decreases m - i,
    {
        let c = sub.get_char(i);
        let mapped: char = if c == '\u{00A0}' {
            ' '
        } else {
            c
        };
        push_char(&mut out, mapped);
        proof {
            assert(sub@.take(i + 1) =~= sub@.take(i as int).push(sub@[i as int]));
            assert(subst_spaces_spec(sub@.take(i + 1)) =~= subst_spaces_spec(
                sub@.take(i as int),
            ).push(space_subst(sub@[i as int])));
        }
        i += 1;
    }
    proof {
        assert(sub@.take(m as int) =~= sub@);
    }
    out
}

/// Relies on `String::push`: appends exactly one character.
#[verifier::external_body]
fn push_char(s: &mut String, c: char)
    ensures
        final(s)@ == old(s)@.push(c),
{
    s.push(c)
}

} // verus!
