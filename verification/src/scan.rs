//! Scanning text: splitting, trimming and searching.
use vstd::prelude::*;

use crate::outcome;
use crate::text;

verus! {

/// The first position of `c`, or the length where it does not occur.
pub open spec fn first_position(chars: Seq<char>, c: char) -> int
    decreases chars.len(),
{
    if chars.len() == 0 || chars[0] == c {
        0
    } else {
        1 + first_position(chars.skip(1), c)
    }
}

pub proof fn lemma_first_position(chars: Seq<char>, c: char, at: int)
    requires
        0 <= at <= chars.len(),
        forall|k: int| 0 <= k < at ==> chars[k] != c,
        at < chars.len() ==> chars[at] == c,
    ensures
        first_position(chars, c) == at,
    decreases at,
{
    if at > 0 {
        assert forall|k: int| 0 <= k < at - 1 implies chars.skip(1)[k] != c by {
            assert(chars.skip(1)[k] == chars[k + 1]);
        }
        lemma_first_position(chars.skip(1), c, at - 1);
    }
}

pub proof fn lemma_first_position_found(chars: Seq<char>, c: char)
    ensures
        0 <= first_position(chars, c) <= chars.len(),
        first_position(chars, c) < chars.len() ==> chars[first_position(chars, c)] == c,
        forall|k: int| 0 <= k < first_position(chars, c) ==> #[trigger] chars[k] != c,
    decreases chars.len(),
{
    if chars.len() > 0 && chars[0] != c {
        lemma_first_position_found(chars.skip(1), c);
        assert forall|k: int| 0 <= k < first_position(chars, c) implies #[trigger] chars[k]
            != c by {
            if k > 0 {
                assert(chars[k] == chars.skip(1)[k - 1]);
            }
        }
    }
}

/// The first position of `c`, or the length where it does not occur.
pub fn position_of(chars: &[char], c: char) -> (at: usize)
    ensures
        at == first_position(chars@, c),
        at <= chars@.len(),
{
    let mut at: usize = 0;
    while at < chars.len() && chars[at] != c
        invariant
            at <= chars@.len(),
            forall|k: int| 0 <= k < at ==> chars@[k] != c,
        decreases chars@.len() - at,
    {
        at += 1;
    }
    proof {
        lemma_first_position(chars@, c, at as int);
    }
    at
}

/// The pieces of a text between occurrences of a separator.
pub open spec fn split_on(chars: Seq<char>, separator: char) -> Seq<Seq<char>>
    decreases chars.len(),
{
    let at = first_position(chars, separator);
    if at >= chars.len() || at < 0 {
        seq![chars]
    } else {
        seq![chars.take(at)] + split_on(chars.skip(at + 1), separator)
    }
}

/// Splits a text at every occurrence of a separator.
pub fn split(chars: &[char], separator: char) -> (pieces: Vec<Vec<char>>)
    ensures
        outcome::seq_view(pieces@) == split_on(chars@, separator),
        pieces@.len() > 0,
{
    let mut pieces: Vec<Vec<char>> = Vec::new();
    let mut start: usize = 0;
    assert(outcome::seq_view(pieces@) =~= Seq::empty());
    assert(chars@.skip(0) =~= chars@);
    assert(outcome::seq_view(pieces@) + split_on(chars@, separator) =~= split_on(chars@, separator));
    loop
        invariant
            start <= chars@.len(),
            outcome::seq_view(pieces@) + split_on(chars@.skip(start as int), separator) == split_on(
                chars@,
                separator,
            ),
        decreases chars@.len() - start,
    {
        let rest = vstd::slice::slice_subrange(chars, start, chars.len());
        assert(rest@ =~= chars@.skip(start as int));
        let at = position_of(rest, separator);
        let ghost before = outcome::seq_view(pieces@);
        if at >= rest.len() {
            pieces.push(vstd::slice::slice_to_vec(rest));
            assert(outcome::seq_view(pieces@) =~= before.push(rest@));
            assert(outcome::seq_view(pieces@) =~= before + seq![rest@]);
            return pieces;
        }
        let piece = vstd::slice::slice_subrange(rest, 0, at);
        assert(piece@ =~= rest@.take(at as int));
        pieces.push(vstd::slice::slice_to_vec(piece));
        assert(outcome::seq_view(pieces@) =~= before.push(piece@));
        assert(chars@.skip(start as int).skip(at as int + 1) =~= chars@.skip(start + at + 1));
        assert(before + (seq![piece@] + split_on(chars@.skip(start + at + 1), separator))
            =~= before.push(piece@) + split_on(chars@.skip(start + at + 1), separator));
        start = start + at + 1;
    }
}

/// White space in the sense of Unicode's `White_Space` property.
pub open spec fn is_white_space(c: char) -> bool {
    ||| '\u{9}' <= c <= '\u{d}'
    ||| c == ' '
    ||| c == '\u{85}'
    ||| c == '\u{a0}'
    ||| c == '\u{1680}'
    ||| '\u{2000}' <= c <= '\u{200a}'
    ||| c == '\u{2028}'
    ||| c == '\u{2029}'
    ||| c == '\u{202f}'
    ||| c == '\u{205f}'
    ||| c == '\u{3000}'
}

pub fn white_space(c: char) -> (r: bool)
    ensures
        r == is_white_space(c),
{
    ('\u{9}' <= c && c <= '\u{d}') || c == ' ' || c == '\u{85}' || c == '\u{a0}' || c == '\u{1680}'
        || ('\u{2000}' <= c && c <= '\u{200a}') || c == '\u{2028}' || c == '\u{2029}' || c
        == '\u{202f}' || c == '\u{205f}' || c == '\u{3000}'
}

/// The text without leading white space.
pub open spec fn trimmed_start(chars: Seq<char>) -> Seq<char>
    decreases chars.len(),
{
    if chars.len() > 0 && is_white_space(chars[0]) {
        trimmed_start(chars.skip(1))
    } else {
        chars
    }
}

/// The text without trailing white space.
pub open spec fn trimmed_end(chars: Seq<char>) -> Seq<char>
    decreases chars.len(),
{
    if chars.len() > 0 && is_white_space(chars.last()) {
        trimmed_end(chars.drop_last())
    } else {
        chars
    }
}

pub open spec fn trimmed(chars: Seq<char>) -> Seq<char> {
    trimmed_end(trimmed_start(chars))
}

/// Leaves out leading white space.
pub fn trim_start(chars: &[char]) -> (rest: &[char])
    ensures
        rest@ == trimmed_start(chars@),
        rest@.len() <= chars@.len(),
{
    let mut start: usize = 0;
    assert(chars@.skip(0) =~= chars@);
    while start < chars.len() && white_space(chars[start])
        invariant
            start <= chars@.len(),
            trimmed_start(chars@.skip(start as int)) == trimmed_start(chars@),
        decreases chars@.len() - start,
    {
        assert(chars@.skip(start as int)[0] == chars@[start as int]);
        assert(chars@.skip(start as int).skip(1) =~= chars@.skip(start as int + 1));
        start += 1;
    }
    let rest = vstd::slice::slice_subrange(chars, start, chars.len());
    assert(rest@ =~= chars@.skip(start as int));
    assert(rest@.len() > 0 ==> rest@[0] == chars@[start as int]);
    rest
}

/// Leaves out leading and trailing white space.
pub fn trim(chars: &[char]) -> (rest: &[char])
    ensures
        rest@ == trimmed(chars@),
{
    let front = trim_start(chars);
    let mut end: usize = front.len();
    assert(front@.take(front@.len() as int) =~= front@);
    while end > 0 && white_space(front[end - 1])
        invariant
            end <= front@.len(),
            trimmed_end(front@.take(end as int)) == trimmed_end(front@),
        decreases end,
    {
        assert(front@.take(end as int).last() == front@[end - 1]);
        assert(front@.take(end as int).drop_last() =~= front@.take(end - 1));
        end -= 1;
    }
    let rest = vstd::slice::slice_subrange(front, 0, end);
    assert(rest@ =~= front@.take(end as int));
    assert(rest@.len() > 0 ==> rest@.last() == front@[end - 1]);
    rest
}

/// How far the text goes before its first white space.
pub open spec fn token_length(chars: Seq<char>) -> int
    decreases chars.len(),
{
    if chars.len() == 0 || is_white_space(chars[0]) {
        0
    } else {
        1 + token_length(chars.skip(1))
    }
}

proof fn lemma_token_length(chars: Seq<char>, at: int)
    requires
        0 <= at <= chars.len(),
        forall|k: int| 0 <= k < at ==> !is_white_space(#[trigger] chars[k]),
        at < chars.len() ==> is_white_space(chars[at]),
    ensures
        token_length(chars) == at,
    decreases at,
{
    if at > 0 {
        assert forall|k: int| 0 <= k < at - 1 implies !is_white_space(
            #[trigger] chars.skip(1)[k],
        ) by {
            assert(chars.skip(1)[k] == chars[k + 1]);
        }
        assert(!is_white_space(chars[0]));
        assert(at < chars.len() ==> chars.skip(1)[at - 1] == chars[at]);
        lemma_token_length(chars.skip(1), at - 1);
    }
}

pub fn token_end(chars: &[char]) -> (at: usize)
    ensures
        at == token_length(chars@),
        at <= chars@.len(),
{
    let mut at: usize = 0;
    while at < chars.len() && !white_space(chars[at])
        invariant
            at <= chars@.len(),
            forall|k: int| 0 <= k < at ==> !is_white_space(#[trigger] chars@[k]),
        decreases chars@.len() - at,
    {
        at += 1;
    }
    proof {
        lemma_token_length(chars@, at as int);
    }
    at
}

/// The next white-space delimited field and what follows it, if there is one.
pub open spec fn next_field(chars: Seq<char>) -> Option<(Seq<char>, Seq<char>)> {
    let rest = trimmed_start(chars);
    let end = token_length(rest);
    if end == 0 {
        None
    } else {
        Some((rest.take(end), rest.skip(end)))
    }
}

/// Takes the next white-space delimited field.
pub fn take_field(chars: &[char]) -> (field: Option<(&[char], &[char])>)
    ensures
        match field {
            Some(pair) => next_field(chars@) == Some((pair.0@, pair.1@)),
            None => next_field(chars@) is None,
        },
{
    let rest = trim_start(chars);
    let end = token_end(rest);
    if end == 0 {
        return None;
    }
    let field = vstd::slice::slice_subrange(rest, 0, end);
    let after = vstd::slice::slice_subrange(rest, end, rest.len());
    assert(field@ =~= rest@.take(end as int));
    assert(after@ =~= rest@.skip(end as int));
    Some((field, after))
}

pub open spec fn occurs_at(chars: Seq<char>, pattern: Seq<char>, at: int) -> bool {
    0 <= at && at + pattern.len() <= chars.len() && chars.subrange(at, at + pattern.len())
        == pattern
}

pub open spec fn contains_text(chars: Seq<char>, pattern: Seq<char>) -> bool {
    exists|at: int| occurs_at(chars, pattern, at)
}

fn occurs_here(chars: &[char], pattern: &[char], at: usize) -> (r: bool)
    requires
        at <= chars@.len(),
    ensures
        r == occurs_at(chars@, pattern@, at as int),
{
    if pattern.len() > chars.len() - at {
        return false;
    }
    let mut i: usize = 0;
    while i < pattern.len()
        invariant
            i <= pattern@.len(),
            at + pattern.len() <= chars.len(),
            forall|k: int| 0 <= k < i ==> chars@[at + k] == pattern@[k],
        decreases pattern@.len() - i,
    {
        if chars[at + i] != pattern[i] {
            assert(chars@.subrange(at as int, at + pattern@.len())[i as int] != pattern@[i as int]);
            return false;
        }
        i += 1;
    }
    assert(chars@.subrange(at as int, at + pattern@.len()) =~= pattern@);
    true
}

/// Whether `pattern` occurs anywhere in the text.
pub fn contains(chars: &[char], pattern: &str) -> (r: bool)
    ensures
        r == contains_text(chars@, pattern@),
{
    let wanted = text::chars_of(pattern);
    let mut at: usize = 0;
    loop
        invariant
            at <= chars@.len(),
            wanted@ == pattern@,
            forall|k: int| 0 <= k < at ==> !occurs_at(chars@, pattern@, k),
        decreases chars@.len() - at,
    {
        if occurs_here(chars, wanted.as_slice(), at) {
            return true;
        }
        if at == chars.len() {
            return false;
        }
        at += 1;
    }
}

/// The one place where a pattern occurs.
pub open spec fn only_occurrence(chars: Seq<char>, pattern: Seq<char>) -> Option<int> {
    if exists|at: int|
        #![trigger occurs_at(chars, pattern, at)]
        occurs_at(chars, pattern, at) && forall|other: int|
            occurs_at(chars, pattern, other) ==> other == at {
        Some(choose|at: int| occurs_at(chars, pattern, at))
    } else {
        None
    }
}

/// Finds the one place where a pattern occurs.
pub fn find_only(chars: &[char], pattern: &str) -> (r: Option<usize>)
    ensures
        match r {
            Some(at) => only_occurrence(chars@, pattern@) == Some(at as int) && occurs_at(
                chars@,
                pattern@,
                at as int,
            ),
            None => only_occurrence(chars@, pattern@) is None,
        },
{
    let wanted = text::chars_of(pattern);
    let mut found: Option<usize> = None;
    let mut at: usize = 0;
    loop
        invariant
            at <= chars@.len(),
            wanted@ == pattern@,
            match found {
                Some(first) => first < at && occurs_at(chars@, pattern@, first as int),
                None => true,
            },
            forall|k: int|
                0 <= k < at ==> (#[trigger] occurs_at(chars@, pattern@, k) <==> found == Some(
                    k as usize,
                )),
        decreases chars@.len() - at,
    {
        if occurs_here(chars, wanted.as_slice(), at) {
            if found.is_some() {
                return None;
            }
            found = Some(at);
        }
        if at == chars.len() {
            assert forall|k: int| #[trigger] occurs_at(chars@, pattern@, k) implies found == Some(
                k as usize,
            ) by {
                assert(0 <= k <= at);
            }
            return found;
        }
        at += 1;
    }
}

pub open spec fn lower_char(c: char) -> char {
    if 'A' <= c <= 'Z' {
        (c as int + 32) as char
    } else {
        c
    }
}

/// The text with ASCII capitals made small.
pub open spec fn lowered(chars: Seq<char>) -> Seq<char> {
    Seq::new(chars.len(), |i: int| lower_char(chars[i]))
}

/// Makes ASCII capitals small.
pub fn to_lower(chars: &[char]) -> (lower: Vec<char>)
    ensures
        lower@ == lowered(chars@),
{
    let mut lower: Vec<char> = Vec::new();
    let mut i: usize = 0;
    while i < chars.len()
        invariant
            i <= chars@.len(),
            lower@ == lowered(chars@.take(i as int)),
        decreases chars@.len() - i,
    {
        let c = chars[i];
        let small = if 'A' <= c && c <= 'Z' {
            (c as u8 + 32) as char
        } else {
            c
        };
        lower.push(small);
        i += 1;
        assert(lower@ =~= lowered(chars@.take(i as int)));
    }
    assert(chars@.take(i as int) =~= chars@);
    lower
}

/// The pieces between line feeds that hold more than white space. A carriage
/// return before a line feed is white space at the end of its line.
pub open spec fn filled_lines(lines: Seq<Seq<char>>) -> Seq<Seq<char>>
    decreases lines.len(),
{
    if lines.len() == 0 {
        Seq::empty()
    } else if trimmed(lines.last()).len() > 0 {
        filled_lines(lines.drop_last()).push(lines.last())
    } else {
        filled_lines(lines.drop_last())
    }
}

pub open spec fn nonblank_lines(chars: Seq<char>) -> Seq<Seq<char>> {
    filled_lines(split_on(chars, '\n'))
}

/// The lines that hold more than white space.
pub fn lines_of(chars: &[char]) -> (lines: Vec<Vec<char>>)
    ensures
        outcome::seq_view(lines@) == nonblank_lines(chars@),
{
    let pieces = split(chars, '\n');
    let ghost all = outcome::seq_view(pieces@);
    let mut lines: Vec<Vec<char>> = Vec::new();
    let mut i: usize = 0;
    assert(outcome::seq_view(lines@) =~= Seq::empty());
    assert(all.take(0) =~= Seq::empty());
    while i < pieces.len()
        invariant
            i <= pieces@.len(),
            all == outcome::seq_view(pieces@),
            outcome::seq_view(lines@) == filled_lines(all.take(i as int)),
        decreases pieces@.len() - i,
    {
        let ghost before = outcome::seq_view(lines@);
        assert(all.take(i as int + 1).drop_last() =~= all.take(i as int));
        assert(all.take(i as int + 1).last() == pieces@[i as int]@);
        let piece = pieces[i].as_slice();
        if trim(piece).len() > 0 {
            lines.push(vstd::slice::slice_to_vec(piece));
            assert(outcome::seq_view(lines@) =~= before.push(piece@));
        }
        i += 1;
    }
    assert(all.take(i as int) =~= all);
    lines
}

/// Whether the characters spell exactly `wanted`.
pub fn is_text(chars: &[char], wanted: &str) -> (r: bool)
    ensures
        r == (chars@ == wanted@),
{
    let expected = text::chars_of(wanted);
    if chars.len() != expected.len() {
        return false;
    }
    let r = text::starts_with(chars, wanted);
    assert(chars@.take(chars@.len() as int) =~= chars@);
    r
}

/// The pieces with the separator between them.
pub open spec fn joined(pieces: Seq<Seq<char>>, separator: char) -> Seq<char>
    decreases pieces.len(),
{
    if pieces.len() == 0 {
        Seq::empty()
    } else if pieces.len() == 1 {
        pieces[0]
    } else {
        pieces[0] + seq![separator] + joined(pieces.skip(1), separator)
    }
}

/// Splitting leaves pieces without the separator that, joined by it, are the
/// text again.
pub proof fn law_splitting_is_undone_by_joining(chars: Seq<char>, separator: char)
    ensures
        split_on(chars, separator).len() >= 1,
        joined(split_on(chars, separator), separator) == chars,
        forall|k: int|
            0 <= k < split_on(chars, separator).len() ==> !(#[trigger] split_on(
                chars,
                separator,
            )[k]).contains(separator),
    decreases chars.len(),
{
    lemma_first_position_found(chars, separator);
    let at = first_position(chars, separator);
    let all = split_on(chars, separator);
    if at < chars.len() {
        let head = chars.take(at);
        let rest = chars.skip(at + 1);
        law_splitting_is_undone_by_joining(rest, separator);
        assert(all == seq![head] + split_on(rest, separator));
        assert(all.skip(1) =~= split_on(rest, separator));
        assert(head + seq![separator] + rest =~= chars);
        assert forall|k: int| 0 <= k < all.len() implies !(#[trigger] all[k]).contains(
            separator,
        ) by {
            if k == 0 {
                assert(all[0] == head);
                if head.contains(separator) {
                    let i = choose|i: int| 0 <= i < head.len() && head[i] == separator;
                    assert(chars[i] == separator);
                }
            } else {
                assert(all[k] == split_on(rest, separator)[k - 1]);
            }
        }
    } else {
        assert(all =~= seq![chars]);
        if chars.contains(separator) {
            let i = choose|i: int| 0 <= i < chars.len() && chars[i] == separator;
            assert(chars[i] == separator);
        }
    }
}

/// Pieces without the separator, joined by it, are split into just these
/// pieces.
pub proof fn law_joining_is_undone_by_splitting(pieces: Seq<Seq<char>>, separator: char)
    requires
        pieces.len() >= 1,
        forall|k: int| 0 <= k < pieces.len() ==> !(#[trigger] pieces[k]).contains(separator),
    ensures
        split_on(joined(pieces, separator), separator) == pieces,
    decreases pieces.len(),
{
    let first = pieces[0];
    let chars = joined(pieces, separator);
    assert forall|k: int| 0 <= k < first.len() implies first[k] != separator by {
        assert(first.contains(first[k]));
    }
    if pieces.len() == 1 {
        lemma_first_position(chars, separator, chars.len() as int);
        assert(pieces =~= seq![chars]);
    } else {
        let tail = pieces.skip(1);
        let rest = joined(tail, separator);
        assert forall|k: int| 0 <= k < tail.len() implies !(#[trigger] tail[k]).contains(
            separator,
        ) by {
            assert(tail[k] == pieces[k + 1]);
        }
        law_joining_is_undone_by_splitting(tail, separator);
        lemma_first_position(chars, separator, first.len() as int);
        assert(chars.take(first.len() as int) =~= first);
        assert(chars.skip(first.len() as int + 1) =~= rest);
        assert(seq![first] + tail =~= pieces);
    }
}

/// Nothing but white space.
pub open spec fn is_blank(chars: Seq<char>) -> bool {
    forall|i: int| 0 <= i < chars.len() ==> is_white_space(#[trigger] chars[i])
}

/// Something, and no white space in it.
pub open spec fn is_solid(chars: Seq<char>) -> bool {
    chars.len() > 0 && forall|i: int|
        0 <= i < chars.len() ==> !is_white_space(#[trigger] chars[i])
}

/// Of the ASCII characters, the tab, the line breaks and the space are white
/// space.
pub proof fn law_ascii_white_space(c: char)
    requires
        (c as int) < 128,
    ensures
        is_white_space(c) <==> 9 <= c as int <= 13 || c as int == 32,
{
}

proof fn lemma_trimmed_start(blank: Seq<char>, rest: Seq<char>)
    requires
        is_blank(blank),
        rest.len() == 0 || !is_white_space(rest[0]),
    ensures
        trimmed_start(blank + rest) == rest,
    decreases blank.len(),
{
    let all = blank + rest;
    if blank.len() > 0 {
        assert(is_white_space(all[0])) by {
            assert(all[0] == blank[0]);
        }
        assert(all.skip(1) =~= blank.skip(1) + rest);
        assert(is_blank(blank.skip(1))) by {
            assert forall|i: int| 0 <= i < blank.skip(1).len() implies is_white_space(
                #[trigger] blank.skip(1)[i],
            ) by {
                assert(blank.skip(1)[i] == blank[i + 1]);
            }
        }
        lemma_trimmed_start(blank.skip(1), rest);
    } else {
        assert(all =~= rest);
    }
}

proof fn lemma_trimmed_end(rest: Seq<char>, blank: Seq<char>)
    requires
        is_blank(blank),
        rest.len() == 0 || !is_white_space(rest.last()),
    ensures
        trimmed_end(rest + blank) == rest,
    decreases blank.len(),
{
    let all = rest + blank;
    if blank.len() > 0 {
        assert(is_white_space(all.last())) by {
            assert(all.last() == blank[blank.len() - 1]);
        }
        assert(all.drop_last() =~= rest + blank.drop_last());
        assert(is_blank(blank.drop_last())) by {
            assert forall|i: int| 0 <= i < blank.drop_last().len() implies is_white_space(
                #[trigger] blank.drop_last()[i],
            ) by {
                assert(blank.drop_last()[i] == blank[i]);
            }
        }
        lemma_trimmed_end(rest, blank.drop_last());
    } else {
        assert(all =~= rest);
    }
}

/// Trimming takes away the white space on both sides, and nothing else.
pub proof fn law_trimming_takes_the_blank_ends(
    before: Seq<char>,
    core: Seq<char>,
    after: Seq<char>,
)
    requires
        is_blank(before),
        is_blank(after),
        core.len() > 0 ==> !is_white_space(core[0]) && !is_white_space(core.last()),
    ensures
        trimmed(before + core + after) == core,
{
    if core.len() > 0 {
        assert(before + core + after =~= before + (core + after));
        lemma_trimmed_start(before, core + after);
        lemma_trimmed_end(core, after);
    } else {
        let all = before + core + after;
        assert forall|i: int| 0 <= i < all.len() implies is_white_space(#[trigger] all[i]) by {
            if i < before.len() {
                assert(all[i] == before[i]);
            } else {
                assert(all[i] == after[i - before.len()]);
            }
        }
        assert(all =~= all + Seq::<char>::empty());
        lemma_trimmed_start(all, Seq::empty());
        assert(core =~= Seq::empty());
    }
}

/// The next field is what stands between the blank before it and the blank or
/// the end behind it; where there is nothing but blank, there is none.
pub proof fn law_fields_stand_between_blanks(
    before: Seq<char>,
    field: Seq<char>,
    after: Seq<char>,
)
    requires
        is_blank(before),
        is_solid(field),
        after.len() > 0 ==> is_white_space(after[0]),
    ensures
        next_field(before + field + after) == Some((field, after)),
        next_field(before) is None,
{
    assert(before + field + after =~= before + (field + after));
    lemma_trimmed_start(before, field + after);
    let rest = field + after;
    lemma_token_length(rest, field.len() as int);
    assert(rest.take(field.len() as int) =~= field);
    assert(rest.skip(field.len() as int) =~= after);
    assert(before =~= before + Seq::<char>::empty());
    lemma_trimmed_start(before, Seq::empty());
}

/// Letters lose their case and everything else stays.
pub proof fn law_lowering_changes_capitals_only(chars: Seq<char>, i: int)
    requires
        0 <= i < chars.len(),
    ensures
        lowered(chars).len() == chars.len(),
        65 <= chars[i] as int <= 90 ==> lowered(chars)[i] as int == chars[i] as int + 32,
        !(65 <= chars[i] as int <= 90) ==> lowered(chars)[i] == chars[i],
{
}

/// The lines that are kept are those that are not blank.
pub proof fn law_nonblank_lines_are_kept(lines: Seq<Seq<char>>, line: Seq<char>)
    ensures
        filled_lines(lines.push(line)) == (if trimmed(line).len() > 0 {
            filled_lines(lines).push(line)
        } else {
            filled_lines(lines)
        }),
        filled_lines(Seq::empty()).len() == 0,
{
    assert(lines.push(line).drop_last() =~= lines);
}

/// A separator between two texts separates their pieces.
pub proof fn law_separators_part_the_pieces(left: Seq<char>, separator: char, right: Seq<char>)
    ensures
        split_on(left + seq![separator] + right, separator) == split_on(left, separator)
            + split_on(right, separator),
    decreases left.len(),
{
    let all = left + seq![separator] + right;
    let at = first_position(left, separator);
    lemma_first_position_found(left, separator);
    assert forall|k: int| 0 <= k < at implies all[k] != separator by {
        assert(all[k] == left[k]);
    }
    assert(all[at] == separator);
    lemma_first_position(all, separator, at);
    assert(all.take(at) =~= left.take(at));
    if at < left.len() {
        let rest = left.skip(at + 1);
        assert(all.skip(at + 1) =~= rest + seq![separator] + right);
        law_separators_part_the_pieces(rest, separator, right);
        assert(seq![left.take(at)] + (split_on(rest, separator) + split_on(right, separator)) =~= (
        seq![left.take(at)] + split_on(rest, separator)) + split_on(right, separator));
    } else {
        assert(left.take(at) =~= left);
        assert(all.skip(at + 1) =~= right);
        assert(split_on(left, separator) =~= seq![left]);
    }
}

/// A text contains another exactly when it is that other text with something,
/// or nothing, before and behind it.
pub proof fn law_contained_texts_stand_inside(before: Seq<char>, inner: Seq<char>, after: Seq<char>)
    ensures
        contains_text(before + inner + after, inner),
        occurs_at(before + inner + after, inner, before.len() as int),
{
    let all = before + inner + after;
    assert(all.subrange(before.len() as int, before.len() as int + inner.len()) =~= inner);
    assert(occurs_at(all, inner, before.len() as int));
}

/// What contains a text can be cut around it.
pub proof fn law_containing_texts_can_be_cut(chars: Seq<char>, inner: Seq<char>) -> (parts: (
    Seq<char>,
    Seq<char>,
))
    requires
        contains_text(chars, inner),
    ensures
        chars == parts.0 + inner + parts.1,
{
    let at = choose|at: int| occurs_at(chars, inner, at);
    let end = at + inner.len();
    assert(chars =~= chars.take(at) + chars.subrange(at, end) + chars.skip(end));
    (chars.take(at), chars.skip(end))
}

/// The only occurrence of a text is where it occurs, and there is none to speak
/// of where it occurs twice or never.
pub proof fn law_only_occurrences_are_unambiguous(
    chars: Seq<char>,
    pattern: Seq<char>,
    first: int,
    second: int,
)
    ensures
        only_occurrence(chars, pattern) matches Some(at) ==> occurs_at(chars, pattern, at) && (
        occurs_at(chars, pattern, first) ==> first == at),
        occurs_at(chars, pattern, first) && occurs_at(chars, pattern, second) && first != second
            ==> only_occurrence(chars, pattern) is None,
        !contains_text(chars, pattern) ==> only_occurrence(chars, pattern) is None,
        occurs_at(chars, pattern, first) && (forall|other: int|
            occurs_at(chars, pattern, other) ==> other == first) ==> only_occurrence(chars, pattern)
            == Some(first),
{
}

/// A field is part of the text it was read from: white space stands before it,
/// none in it, and white space or nothing behind it. Where there is no field,
/// there is nothing but white space.
pub proof fn law_fields_are_parts_of_the_text(chars: Seq<char>) -> (blank: Seq<char>)
    ensures
        is_blank(blank),
        match next_field(chars) {
            Some((field, rest)) => chars == blank + field + rest && is_solid(field) && (rest.len()
                > 0 ==> is_white_space(rest[0])),
            None => chars == blank,
        },
{
    let rest = trimmed_start(chars);
    let blank = lemma_blank_start(chars);
    let end = lemma_token_ends(rest);
    if end > 0 {
        assert(rest =~= rest.take(end) + rest.skip(end));
        assert(chars =~= blank + rest.take(end) + rest.skip(end));
        assert forall|i: int| 0 <= i < rest.take(end).len() implies !is_white_space(
            #[trigger] rest.take(end)[i],
        ) by {
            assert(rest.take(end)[i] == rest[i]);
        }
    } else {
        assert(rest.len() == 0);
        assert(chars =~= blank);
    }
    blank
}

proof fn lemma_blank_start(chars: Seq<char>) -> (blank: Seq<char>)
    ensures
        is_blank(blank),
        chars == blank + trimmed_start(chars),
        trimmed_start(chars).len() > 0 ==> !is_white_space(trimmed_start(chars)[0]),
    decreases chars.len(),
{
    if chars.len() > 0 && is_white_space(chars[0]) {
        let rest = lemma_blank_start(chars.skip(1));
        let blank = seq![chars[0]] + rest;
        assert(chars =~= seq![chars[0]] + chars.skip(1));
        assert(seq![chars[0]] + (rest + trimmed_start(chars)) =~= blank + trimmed_start(chars));
        assert forall|i: int| 0 <= i < blank.len() implies is_white_space(#[trigger] blank[i]) by {
            if i > 0 {
                assert(blank[i] == rest[i - 1]);
            }
        }
        blank
    } else {
        assert(chars =~= Seq::<char>::empty() + chars);
        Seq::empty()
    }
}

proof fn lemma_token_ends(chars: Seq<char>) -> (end: int)
    ensures
        end == token_length(chars),
        0 <= end <= chars.len(),
        forall|i: int| 0 <= i < end ==> !is_white_space(#[trigger] chars[i]),
        end < chars.len() ==> is_white_space(chars[end]),
    decreases chars.len(),
{
    if chars.len() == 0 || is_white_space(chars[0]) {
        0
    } else {
        let rest = chars.skip(1);
        let end = lemma_token_ends(rest);
        assert forall|i: int| 0 <= i < end + 1 implies !is_white_space(#[trigger] chars[i]) by {
            if i > 0 {
                assert(rest[i - 1] == chars[i]);
            }
        }
        end + 1
    }
}

} // verus!
