//! Comma-joined name lists: splitting, trimming and joining.
//!
//! The arbitrary targets of a state are kept as one string in which every target is
//! followed by a comma. `parse_arbs` turns such a string back into names.

use crate::search::{lemma_position_is, position};
use vstd::prelude::*;

verus! {

broadcast use vstd::string::group_string_axioms;

/// What `char::is_whitespace` answers for `c`: whether `c` has the Unicode property
/// `White_Space`. The contracts use the name for characters beyond ASCII only.
pub uninterp spec fn is_whitespace(c: char) -> bool;

/// Whether `c` is whitespace. Of the ASCII characters the blank and U+0009 to U+000D
/// are, and no other; of a character beyond ASCII, `char::is_whitespace` decides.
pub open spec fn white_space(c: char) -> bool {
    if (c as u32) < 0x80 {
        c == ' ' || 0x09 <= (c as u32) <= 0x0d
    } else {
        is_whitespace(c)
    }
}

/// Calls `char::is_whitespace`. The contract states the answer for an ASCII
/// character, which the property `White_Space` fixes, and gives the answer for any
/// other character the name `is_whitespace`, so that two calls on one character agree.
#[verifier::external_body]
fn whitespace(c: char) -> (b: bool)
    ensures
        b == white_space(c),
        (c as u32) >= 0x80 ==> b == is_whitespace(c),
{
    c.is_whitespace()
}

/// The views of a sequence of strings.
pub open spec fn texts(v: Seq<String>) -> Seq<Seq<char>> {
    Seq::new(v.len(), |i: int| v[i]@)
}

/// The number of characters in front of the first comma of `s`; `s.len()` if it has none.
pub open spec fn comma_offset(s: Seq<char>) -> nat {
    position(s, ',')
}

/// The pieces of `s` between its commas. A string without a comma is one piece, the
/// empty string too; a comma at the end is followed by an empty piece.
pub open spec fn split_commas(s: Seq<char>) -> Seq<Seq<char>>
    decreases s.len(),
{
    let k = comma_offset(s) as int;
    if k >= s.len() {
        seq![s]
    } else {
        seq![s.take(k)] + split_commas(s.skip(k + 1))
    }
}

/// `s` without the whitespace at its front.
pub open spec fn trim_start(s: Seq<char>) -> Seq<char>
    decreases s.len(),
{
    if s.len() > 0 && white_space(s[0]) {
        trim_start(s.drop_first())
    } else {
        s
    }
}

/// `s` without the whitespace at its end.
pub open spec fn trim_end(s: Seq<char>) -> Seq<char>
    decreases s.len(),
{
    if s.len() > 0 && white_space(s.last()) {
        trim_end(s.drop_last())
    } else {
        s
    }
}

/// `s` without the whitespace at either end.
pub open spec fn trimmed(s: Seq<char>) -> Seq<char> {
    trim_end(trim_start(s))
}

/// The names that a comma-joined string holds: its pieces, each trimmed.
pub open spec fn parsed_arbs(joined: Seq<char>) -> Seq<Seq<char>> {
    split_commas(joined).map_values(|piece: Seq<char>| trimmed(piece))
}

/// The string in which every one of `targets` is followed by a comma.
pub open spec fn joined(targets: Seq<Seq<char>>) -> Seq<char>
    decreases targets.len(),
{
    if targets.len() == 0 {
        Seq::empty()
    } else {
        targets[0] + seq![','] + joined(targets.drop_first())
    }
}

/// A name that survives joining and parsing: it holds no comma and no whitespace at
/// either end, and it is not empty.
pub open spec fn plain_name(name: Seq<char>) -> bool {
    &&& name.len() > 0
    &&& !name.contains(',')
    &&& trimmed(name) == name
}

/// Unfolds `parsed_arbs` at the first comma of `s`.
pub proof fn lemma_parsed_arbs_step(s: Seq<char>, k: int)
    requires
        0 <= k <= s.len(),
        forall|j: int| 0 <= j < k ==> s[j] != ',',
        k < s.len() ==> s[k] == ',',
    ensures
        k == s.len() ==> parsed_arbs(s) == seq![trimmed(s)],
        k < s.len() ==> parsed_arbs(s) == seq![trimmed(s.take(k))] + parsed_arbs(s.skip(k + 1)),
{
    lemma_position_is(s, ',', k);
    if k == s.len() {
        assert(parsed_arbs(s) =~= seq![trimmed(s)]);
    } else {
        assert(parsed_arbs(s) =~= seq![trimmed(s.take(k))] + parsed_arbs(s.skip(k + 1)));
    }
}

/// Joining one more target appends it and a comma.
pub proof fn lemma_joined_push(targets: Seq<Seq<char>>, target: Seq<char>)
    ensures
        joined(targets.push(target)) == joined(targets) + target + seq![','],
    decreases targets.len(),
{
    if targets.len() == 0 {
        let one = targets.push(target);
        assert(one.drop_first() =~= Seq::<Seq<char>>::empty());
        assert(joined(one.drop_first()) =~= Seq::<char>::empty());
        assert(joined(one) == one[0] + seq![','] + joined(one.drop_first()));
        assert(joined(one) =~= joined(targets) + target + seq![',']);
    } else {
        lemma_joined_push(targets.drop_first(), target);
        assert(targets.push(target).drop_first() =~= targets.drop_first().push(target));
        assert(joined(targets.push(target)) =~= joined(targets) + target + seq![',']);
    }
}

/// The empty string holds one name, the empty one.
pub proof fn lemma_parsed_arbs_of_empty()
    ensures
        parsed_arbs(Seq::<char>::empty()) == seq![Seq::<char>::empty()],
{
    lemma_parsed_arbs_step(Seq::<char>::empty(), 0);
}

/// Parsing gives back what was joined, and one empty name behind the last comma:
/// this holds of targets that have no comma in them and no whitespace at their ends.
pub proof fn lemma_parse_joined(targets: Seq<Seq<char>>)
    requires
        forall|k: int|
            0 <= k < targets.len() ==> !(#[trigger] targets[k]).contains(',') && trimmed(
                targets[k],
            ) == targets[k],
    ensures
        parsed_arbs(joined(targets)) == targets.push(Seq::<char>::empty()),
    decreases targets.len(),
{
    if targets.len() == 0 {
        lemma_parsed_arbs_of_empty();
        assert(targets.push(Seq::<char>::empty()) =~= seq![Seq::<char>::empty()]);
    } else {
        let s = joined(targets);
        let first = targets[0];
        let rest = targets.drop_first();
        let k = first.len() as int;
        assert forall|j: int| 0 <= j < k implies s[j] != ',' by {
            if s[j] == ',' {
                assert(first[j] == ',');
                assert(first.contains(','));
            }
        }
        assert(s[k] == ',');
        lemma_parsed_arbs_step(s, k);
        assert(s.take(k) =~= first);
        assert(s.skip(k + 1) =~= joined(rest));
        assert forall|i: int| 0 <= i < rest.len() implies !(#[trigger] rest[i]).contains(',')
            && trimmed(rest[i]) == rest[i] by {
            assert(rest[i] == targets[i + 1]);
        }
        lemma_parse_joined(rest);
        assert(seq![first] + rest.push(Seq::<char>::empty()) =~= targets.push(
            Seq::<char>::empty(),
        ));
    }
}

proof fn lemma_trim_lengths(s: Seq<char>)
    ensures
        trim_start(s).len() <= s.len(),
        trim_end(s).len() <= s.len(),
    decreases s.len(),
{
    if s.len() > 0 {
        lemma_trim_lengths(s.drop_first());
        lemma_trim_lengths(s.drop_last());
    }
}

/// Trimming leaves a string as it is exactly when the string is empty or neither
/// begins nor ends with whitespace.
pub proof fn lemma_trimmed_is_fixed(s: Seq<char>)
    ensures
        trimmed(s) == s <==> s.len() == 0 || (!white_space(s[0]) && !white_space(s.last())),
{
    if s.len() > 0 {
        lemma_trim_lengths(s.drop_first());
        lemma_trim_lengths(s.drop_last());
        lemma_trim_lengths(trim_start(s));
    }
}

/// The characters of `s`, in order.
pub fn characters(s: &str) -> (chars: Vec<char>)
    ensures
        chars@ == s@,
{
    let mut chars: Vec<char> = Vec::new();
    for c in it: s.chars()
        invariant
            it.seq() == s@,
            chars@ == s@.take(it.index()),
    {
        chars.push(c);
        assert(s@.take(it.index() + 1) =~= s@.take(it.index()).push(c));
    }
    assert(s@.take(s@.len() as int) =~= s@);
    chars
}

/// The bounds of `chars[start..end]` without the whitespace at either end.
fn trim_bounds(chars: &Vec<char>, start: usize, end: usize) -> (bounds: (usize, usize))
    requires
        start <= end <= chars.len(),
    ensures
        start <= bounds.0 <= bounds.1 <= end,
        chars@.subrange(bounds.0 as int, bounds.1 as int) == trimmed(
            chars@.subrange(start as int, end as int),
        ),
{
    let mut a: usize = start;
    while a < end && whitespace(chars[a])
        invariant
            start <= a <= end <= chars.len(),
            trim_start(chars@.subrange(start as int, end as int)) == trim_start(
                chars@.subrange(a as int, end as int),
            ),
        decreases end - a,
    {
        assert(chars@.subrange(a as int, end as int).drop_first() =~= chars@.subrange(
            a + 1,
            end as int,
        ));
        a += 1;
    }
    let mut b: usize = end;
    while b > a && whitespace(chars[b - 1])
        invariant
            a <= b <= end <= chars.len(),
            trim_end(chars@.subrange(a as int, end as int)) == trim_end(
                chars@.subrange(a as int, b as int),
            ),
        decreases b - a,
    {
        assert(chars@.subrange(a as int, b as int).drop_last() =~= chars@.subrange(
            a as int,
            b - 1,
        ));
        b -= 1;
    }
    (a, b)
}

/// Whether `name` is one of `list`.
pub fn contains_name(list: &Vec<String>, name: &String) -> (found: bool)
    ensures
        found == texts(list@).contains(name@),
{
    let mut i: usize = 0;
    while i < list.len()
        invariant
            i <= list.len(),
            forall|j: int| 0 <= j < i ==> texts(list@)[j] != name@,
        decreases list.len() - i,
    {
        if list[i] == *name {
            assert(texts(list@)[i as int] == name@);
            return true;
        }
        i += 1;
    }
    false
}

/// Whether `name` is plain: not empty, without a comma, and without whitespace at its
/// front or its end.
pub fn is_plain_name(name: &str) -> (plain: bool)
    ensures
        plain == plain_name(name@),
{
    let chars = characters(name);
    let n = chars.len();
    if n == 0 {
        return false;
    }
    let mut i: usize = 0;
    while i < n
        invariant
            i <= n,
            n == chars.len(),
            chars@ == name@,
            forall|j: int| 0 <= j < i ==> chars@[j] != ',',
        decreases n - i,
    {
        if chars[i] == ',' {
            assert(chars@.contains(','));
            return false;
        }
        i += 1;
    }
    proof {
        lemma_trimmed_is_fixed(chars@);
    }
    !whitespace(chars[0]) && !whitespace(chars[n - 1])
}

/// The names that a comma-joined string holds: the string is cut at every comma, and
/// each piece loses the whitespace at its ends. The empty string gives one empty name.
pub fn parse_arbs(arbs: &str) -> (names: Vec<String>)
    ensures
        texts(names@) == parsed_arbs(arbs@),
{
    let chars = characters(arbs);
    let n = chars.len();
    let mut names: Vec<String> = Vec::new();
    let mut start: usize = 0;
    let mut i: usize = 0;
    proof {
        assert(chars@.skip(0) =~= chars@);
        assert(texts(names@) + parsed_arbs(chars@) =~= parsed_arbs(chars@));
    }
    while i < n
        invariant
            start <= i <= n,
            n == chars.len(),
            chars@ == arbs@,
            forall|j: int| start <= j < i ==> chars@[j] != ',',
            texts(names@) + parsed_arbs(chars@.skip(start as int)) == parsed_arbs(chars@),
        decreases n - i,
    {
        if chars[i] == ',' {
            let (a, b) = trim_bounds(&chars, start, i);
            let name = String::from_str(arbs.substring_char(a, b));
            proof {
                let rest = chars@.skip(start as int);
                lemma_parsed_arbs_step(rest, i - start);
                assert(rest.take(i - start) =~= chars@.subrange(start as int, i as int));
                assert(rest.skip(i - start + 1) =~= chars@.skip(i + 1));
                assert(texts(names@.push(name)) =~= texts(names@) + seq![name@]);
            }
            names.push(name);
            start = i + 1;
        }
        i += 1;
    }
    let (a, b) = trim_bounds(&chars, start, n);
    let name = String::from_str(arbs.substring_char(a, b));
    proof {
        let rest = chars@.skip(start as int);
        lemma_parsed_arbs_step(rest, n - start);
        assert(rest =~= chars@.subrange(start as int, n as int));
        assert(texts(names@.push(name)) =~= texts(names@) + seq![name@]);
    }
    names.push(name);
    names
}

} // verus!
