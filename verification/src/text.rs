//! Searching, cutting and trimming of character sequences.
//!
//! Every function here is stated over the characters of a string (`s@`), never
//! over its bytes, so a position always names a whole character.

use vstd::prelude::*;

verus! {

/// Whether `pat` stands in `s` at position `at`.
pub open spec fn occurs_at(s: Seq<char>, pat: Seq<char>, at: int) -> bool {
    &&& 0 <= at
    &&& at + pat.len() <= s.len()
    &&& s.subrange(at, at + pat.len()) == pat
}

/// Whether `pat` stands somewhere in `s`.
pub open spec fn occurs(s: Seq<char>, pat: Seq<char>) -> bool {
    exists|at: int| occurs_at(s, pat, at)
}

/// `s` with every occurrence of `pat` cut out, found from left to right; an
/// occurrence that overlaps one already cut out is not one.
pub open spec fn without(s: Seq<char>, pat: Seq<char>) -> Seq<char>
    decreases s.len(),
{
    if pat.len() == 0 || s.len() < pat.len() {
        s
    } else if occurs_at(s, pat, 0) {
        without(s.skip(pat.len() as int), pat)
    } else {
        seq![s[0]] + without(s.skip(1), pat)
    }
}

/// The characters that Unicode gives the property `White_Space`.
pub open spec fn is_space(c: char) -> bool {
    ||| '\u{9}' <= c <= '\u{D}'
    ||| c == ' '
    ||| c == '\u{85}'
    ||| c == '\u{A0}'
    ||| c == '\u{1680}'
    ||| '\u{2000}' <= c <= '\u{200A}'
    ||| c == '\u{2028}'
    ||| c == '\u{2029}'
    ||| c == '\u{202F}'
    ||| c == '\u{205F}'
    ||| c == '\u{3000}'
}

/// `s` without the white space it starts with.
pub open spec fn trimmed_start(s: Seq<char>) -> Seq<char>
    decreases s.len(),
{
    if s.len() > 0 && is_space(s[0]) {
        trimmed_start(s.skip(1))
    } else {
        s
    }
}

/// `s` without the white space it ends with.
pub open spec fn trimmed_end(s: Seq<char>) -> Seq<char>
    decreases s.len(),
{
    if s.len() > 0 && is_space(s.last()) {
        trimmed_end(s.drop_last())
    } else {
        s
    }
}

/// `s` without the white space at either end.
pub open spec fn trimmed(s: Seq<char>) -> Seq<char> {
    trimmed_end(trimmed_start(s))
}

/// The characters of `s`, in order.
pub fn chars_of(s: &str) -> (chars: Vec<char>)
    ensures
        chars@ == s@,
{
    let mut chars: Vec<char> = Vec::new();
    for c in it: s.chars()
        invariant
            it.seq() == s@,
            chars@ == it.seq().take(it.index()),
    {
        chars.push(c);
    }
    chars
}

/// Tells whether `pat` stands in `s` at position `at`.
pub fn matches_at(s: &Vec<char>, pat: &Vec<char>, at: usize) -> (found: bool)
    ensures
        found == occurs_at(s@, pat@, at as int),
{
    if pat.len() > s.len() || at > s.len() - pat.len() {
        return false;
    }
    let mut k: usize = 0;
    while k < pat.len()
        invariant
            k <= pat.len(),
            at + pat.len() <= s.len(),
            forall|j: int| 0 <= j < k ==> s@[at + j] == pat@[j],
        decreases pat.len() - k,
    {
        if s[at + k] != pat[k] {
            proof {
                let cut = s@.subrange(at as int, at + pat.len());
                assert(cut[k as int] == s@[at + k]);
            }
            return false;
        }
        k += 1;
    }
    assert(s@.subrange(at as int, at + pat.len()) =~= pat@);
    true
}

/// Tells whether two strings hold the same characters.
pub fn same_text(a: &str, b: &str) -> (same: bool)
    ensures
        same == (a@ == b@),
{
    let left = chars_of(a);
    let right = chars_of(b);
    if left.len() != right.len() {
        return false;
    }
    let found = matches_at(&left, &right, 0);
    proof {
        if found {
            assert(left@.subrange(0, 0int + right@.len()) =~= left@);
        } else if left@ == right@ {
            assert(left@.subrange(0, 0int + right@.len()) =~= right@);
        }
    }
    found
}

/// Tells whether `pat` stands somewhere in `s`.
pub fn contains(s: &str, pat: &str) -> (found: bool)
    ensures
        found == occurs(s@, pat@),
{
    let text = chars_of(s);
    let sought = chars_of(pat);
    if sought.len() == 0 {
        assert(text@.subrange(0, 0) =~= sought@);
        assert(occurs_at(text@, sought@, 0));
        return true;
    }
    if sought.len() > text.len() {
        return false;
    }
    let mut at: usize = 0;
    while text.len() - at >= sought.len()
        invariant
            at <= text.len(),
            sought.len() > 0,
            text@ == s@,
            sought@ == pat@,
            forall|j: int| 0 <= j < at ==> !occurs_at(text@, sought@, j),
        decreases text.len() - at,
    {
        if matches_at(&text, &sought, at) {
            assert(occurs_at(text@, sought@, at as int));
            return true;
        }
        at += 1;
    }
    false
}

/// Cuts every occurrence of `pat` out of `s`, from left to right.
pub fn remove_all(s: &str, pat: &str) -> (rest: String)
    ensures
        rest@ == without(s@, pat@),
{
    let text = chars_of(s);
    let sought = chars_of(pat);
    if sought.len() == 0 || text.len() < sought.len() {
        return String::from_str(s);
    }
    let mut rest = String::new();
    let mut at: usize = 0;
    proof {
        assert(text@.skip(0) =~= text@);
        assert(rest@ + without(text@, sought@) =~= without(text@, sought@));
    }
    while text.len() - at >= sought.len()
        invariant
            at <= text.len(),
            sought.len() > 0,
            text@ == s@,
            sought@ == pat@,
            rest@ + without(text@.skip(at as int), sought@) == without(text@, sought@),
        decreases text.len() - at,
    {
        let ghost tail = text@.skip(at as int);
        let hit = matches_at(&text, &sought, at);
        proof {
            assert(tail.subrange(0, 0int + sought@.len()) =~= text@.subrange(
                at as int,
                at + sought@.len(),
            ));
        }
        if hit {
            proof {
                assert(tail.skip(sought@.len() as int) =~= text@.skip(at + sought@.len()));
            }
            at += sought.len();
        } else {
            let piece = s.substring_char(at, at + 1);
            proof {
                assert(piece@ =~= seq![tail[0]]);
                assert(tail.skip(1) =~= text@.skip(at + 1));
                assert(rest@ + (seq![tail[0]] + without(tail.skip(1), sought@)) =~= (rest@
                    + piece@) + without(tail.skip(1), sought@));
            }
            rest.append(piece);
            at += 1;
        }
    }
    let piece = s.substring_char(at, text.len());
    proof {
        assert(piece@ =~= text@.skip(at as int));
    }
    rest.append(piece);
    rest
}

/// Tells whether `c` is white space.
pub fn is_whitespace(c: char) -> (space: bool)
    ensures
        space == is_space(c),
{
    ('\u{9}' <= c && c <= '\u{D}') || c == ' ' || c == '\u{85}' || c == '\u{A0}' || c
        == '\u{1680}' || ('\u{2000}' <= c && c <= '\u{200A}') || c == '\u{2028}' || c
        == '\u{2029}' || c == '\u{202F}' || c == '\u{205F}' || c == '\u{3000}'
}

/// What is left of `s` once the white space before position `from` is known
/// to be all there is at its start.
proof fn lemma_trimmed_start_skips(s: Seq<char>, from: int)
    requires
        0 <= from <= s.len(),
        forall|j: int| 0 <= j < from ==> is_space(s[j]),
    ensures
        trimmed_start(s) == trimmed_start(s.skip(from)),
    decreases from,
{
    if from > 0 {
        assert(s.skip(1).skip(from - 1) =~= s.skip(from));
        lemma_trimmed_start_skips(s.skip(1), from - 1);
    } else {
        assert(s.skip(0) =~= s);
    }
}

/// The same, for the white space behind position `to`.
proof fn lemma_trimmed_end_takes(s: Seq<char>, to: int)
    requires
        0 <= to <= s.len(),
        forall|j: int| to <= j < s.len() ==> is_space(s[j]),
    ensures
        trimmed_end(s) == trimmed_end(s.take(to)),
    decreases s.len() - to,
{
    if to < s.len() {
        assert(s.drop_last().take(to) =~= s.take(to));
        lemma_trimmed_end_takes(s.drop_last(), to);
    } else {
        assert(s.take(to) =~= s);
    }
}

/// Takes the white space off both ends of `s`.
pub fn trim(s: &str) -> (core: &str)
    ensures
        core@ == trimmed(s@),
{
    let text = chars_of(s);
    let mut from: usize = 0;
    while from < text.len() && is_whitespace(text[from])
        invariant
            from <= text.len(),
            forall|j: int| 0 <= j < from ==> is_space(text@[j]),
        decreases text.len() - from,
    {
        from += 1;
    }
    let mut to: usize = text.len();
    while to > from && is_whitespace(text[to - 1])
        invariant
            from <= to <= text.len(),
            forall|j: int| to <= j < text.len() ==> is_space(text@[j]),
        decreases to,
    {
        to -= 1;
    }
    proof {
        let inner = text@.skip(from as int);
        lemma_trimmed_start_skips(text@, from as int);
        assert(trimmed_start(text@) == inner);
        lemma_trimmed_end_takes(inner, to - from);
        assert(inner.take(to - from) =~= text@.subrange(from as int, to as int));
        assert(trimmed_end(inner) == text@.subrange(from as int, to as int));
    }
    s.substring_char(from, to)
}

} // verus!
