//! Absolute paths as text.
use vstd::prelude::*;

use crate::outcome;
use crate::process;
use crate::scan;
use crate::text;

verus! {

/// The segments between the slashes of an absolute path.
pub open spec fn segments(path: Seq<char>) -> Seq<Seq<char>> {
    scan::split_on(path.skip(1), '/')
}

/// A segment that names one entry: neither empty nor a dot alias.
pub open spec fn is_plain_segment(segment: Seq<char>) -> bool {
    segment.len() > 0 && segment != "."@ && segment != ".."@
}

/// A slash, then plain segments with one slash between two: the root itself,
/// doubled or trailing slashes and dot aliases are no such path.
pub open spec fn is_canonical_absolute(path: Seq<char>) -> bool {
    &&& path.len() > 0
    &&& path[0] == '/'
    &&& forall|i: int|
        0 <= i < segments(path).len() ==> is_plain_segment(#[trigger] segments(path)[i])
}

pub open spec fn has_control(path: Seq<char>) -> bool {
    exists|i: int| 0 <= i < path.len() && text::is_control(#[trigger] path[i])
}

/// Whether any character is a control character.
pub fn holds_control(chars: &[char]) -> (r: bool)
    ensures
        r == has_control(chars@),
{
    let mut i: usize = 0;
    while i < chars.len()
        invariant
            i <= chars@.len(),
            forall|k: int| 0 <= k < i ==> !text::is_control(#[trigger] chars@[k]),
        decreases chars@.len() - i,
    {
        let c = chars[i];
        if c <= '\u{1f}' || ('\u{7f}' <= c && c <= '\u{9f}') {
            assert(text::is_control(chars@[i as int]));
            return true;
        }
        i += 1;
    }
    false
}

fn plain_segment(segment: &[char]) -> (r: bool)
    ensures
        r == is_plain_segment(segment@),
{
    segment.len() > 0 && !scan::is_text(segment, ".") && !scan::is_text(segment, "..")
}

/// Whether a path is absolute and canonical.
pub fn canonical_absolute(chars: &[char]) -> (r: bool)
    ensures
        r == is_canonical_absolute(chars@),
{
    if chars.len() == 0 || chars[0] != '/' {
        return false;
    }
    let rest = vstd::slice::slice_subrange(chars, 1, chars.len());
    assert(rest@ =~= chars@.skip(1));
    let pieces = scan::split(rest, '/');
    let ghost all = segments(chars@);
    let mut i: usize = 0;
    while i < pieces.len()
        invariant
            i <= pieces@.len(),
            outcome::seq_view(pieces@) == all,
            all == segments(chars@),
            forall|k: int| 0 <= k < i ==> is_plain_segment(#[trigger] all[k]),
        decreases pieces@.len() - i,
    {
        if !plain_segment(pieces[i].as_slice()) {
            assert(all[i as int] == pieces@[i as int]@);
            return false;
        }
        i += 1;
    }
    true
}

/// The segments of a path that name entries.
pub open spec fn plain_segments(segments: Seq<Seq<char>>) -> Seq<Seq<char>>
    decreases segments.len(),
{
    if segments.len() == 0 {
        Seq::empty()
    } else if is_plain_segment(segments.last()) {
        plain_segments(segments.drop_last()).push(segments.last())
    } else {
        plain_segments(segments.drop_last())
    }
}

/// The entries that a path names one after the other.
pub fn normal_components(path: &str) -> (components: Vec<String>)
    ensures
        outcome::seq_view(components@) == plain_segments(scan::split_on(path@, '/')),
{
    let chars = text::chars_of(path);
    let pieces = scan::split(chars.as_slice(), '/');
    let ghost all = scan::split_on(path@, '/');
    let mut components: Vec<String> = Vec::new();
    let mut i: usize = 0;
    assert(all.take(0) =~= Seq::empty());
    assert(outcome::seq_view(components@) =~= Seq::empty());
    while i < pieces.len()
        invariant
            i <= pieces@.len(),
            outcome::seq_view(pieces@) == all,
            outcome::seq_view(components@) == plain_segments(all.take(i as int)),
        decreases pieces@.len() - i,
    {
        let piece = pieces[i].as_slice();
        let ghost before = outcome::seq_view(components@);
        assert(all[i as int] == piece@);
        assert(all.take(i as int + 1).drop_last() =~= all.take(i as int));
        assert(all.take(i as int + 1).last() == piece@);
        if piece.len() > 0 && !scan::is_text(piece, ".") && !scan::is_text(piece, "..") {
            components.push(text::text_of(piece));
            assert(outcome::seq_view(components@) =~= before.push(piece@));
        }
        i += 1;
    }
    assert(all.take(i as int) =~= all);
    components
}

/// An absolute path that never goes up. Doubled slashes and single dots do not
/// matter.
pub open spec fn is_upright(path: Seq<char>) -> bool {
    &&& path.len() > 0
    &&& path[0] == '/'
    &&& !scan::split_on(path, '/').contains(".."@)
}

/// The entries that an absolute path names one after the other.
pub open spec fn named_entries(path: Seq<char>) -> Seq<Seq<char>> {
    plain_segments(scan::split_on(path, '/'))
}

/// An absolute path that never goes up and names something beneath the root.
pub open spec fn is_descending(path: Seq<char>) -> bool {
    is_upright(path) && named_entries(path).len() > 0
}

/// Two absolute paths that name the same entries without going up.
pub open spec fn is_same_location(left: Seq<char>, right: Seq<char>) -> bool {
    is_upright(left) && is_upright(right) && named_entries(left) == named_entries(right)
}

/// Whether an absolute path names something beneath the root without going up.
pub fn descending(path: &str) -> (r: bool)
    ensures
        r == is_descending(path@),
{
    upright(path) && normal_components(path).len() > 0
}

/// Whether two absolute paths name the same entries without going up.
pub fn same_location(left: &str, right: &str) -> (r: bool)
    ensures
        r == is_same_location(left@, right@),
{
    upright(left) && upright(right) && process::same_texts(
        &normal_components(left),
        &normal_components(right),
    )
}

/// Whether a path is absolute and never goes up.
pub fn upright(path: &str) -> (r: bool)
    ensures
        r == is_upright(path@),
{
    let chars = text::chars_of(path);
    if chars.len() == 0 || chars[0] != '/' {
        return false;
    }
    let pieces = scan::split(chars.as_slice(), '/');
    let ghost all = scan::split_on(path@, '/');
    let mut i: usize = 0;
    while i < pieces.len()
        invariant
            i <= pieces@.len(),
            outcome::seq_view(pieces@) == all,
            all == scan::split_on(path@, '/'),
            forall|k: int| 0 <= k < i ==> all[k] != ".."@,
        decreases pieces@.len() - i,
    {
        assert(all[i as int] == pieces@[i as int]@);
        if scan::is_text(pieces[i].as_slice(), "..") {
            assert(all.contains(all[i as int]));
            return false;
        }
        i += 1;
    }
    true
}

/// The position of the last slash, or -1.
pub open spec fn last_slash(path: Seq<char>) -> int
    decreases path.len(),
{
    if path.len() == 0 {
        -1
    } else if path.last() == '/' {
        path.len() - 1
    } else {
        last_slash(path.drop_last())
    }
}

/// The directory that holds an absolute path.
pub open spec fn parent(path: Seq<char>) -> Seq<char> {
    if last_slash(path) <= 0 {
        "/"@
    } else {
        path.take(last_slash(path))
    }
}

/// The entry `name` of a directory.
pub open spec fn child(directory: Seq<char>, name: Seq<char>) -> Seq<char> {
    if directory.len() > 0 && directory.last() == '/' {
        directory + name
    } else {
        directory + "/"@ + name
    }
}

/// A path followed by every directory above it, up to the root.
pub open spec fn ancestors(path: Seq<char>) -> Seq<Seq<char>>
    decreases path.len(),
{
    if last_slash(path) < 0 || path.len() <= 1 {
        seq![path]
    } else {
        proof {
            lemma_parent_is_shorter(path);
        }
        seq![path] + ancestors(parent(path))
    }
}

pub proof fn lemma_last_slash(path: Seq<char>, at: int)
    requires
        -1 <= at < path.len(),
        at >= 0 ==> path[at] == '/',
        forall|k: int| at < k < path.len() ==> path[k] != '/',
    ensures
        last_slash(path) == at,
    decreases path.len(),
{
    if path.len() > 0 && at < path.len() - 1 {
        assert(path[path.len() - 1] != '/');
        lemma_last_slash(path.drop_last(), at);
    }
}

pub proof fn lemma_last_slash_bounds(path: Seq<char>)
    ensures
        -1 <= last_slash(path) < path.len(),
    decreases path.len(),
{
    if path.len() > 0 && path.last() != '/' {
        lemma_last_slash_bounds(path.drop_last());
    }
}

pub proof fn lemma_parent_is_shorter(path: Seq<char>)
    requires
        path.len() > 1,
    ensures
        parent(path).len() < path.len(),
{
    reveal_strlit("/");
    lemma_last_slash_bounds(path);
}

/// The directory that holds an absolute path.
pub fn parent_of(path: &str) -> (directory: String)
    ensures
        directory@ == parent(path@),
{
    let chars = text::chars_of(path);
    let mut at: usize = chars.len();
    while at > 0 && chars[at - 1] != '/'
        invariant
            at <= chars@.len(),
            forall|k: int| at <= k < chars@.len() ==> chars@[k] != '/',
        decreases at,
    {
        at -= 1;
    }
    proof {
        lemma_last_slash(chars@, at - 1);
    }
    if at <= 1 {
        "/".to_owned()
    } else {
        let head = vstd::slice::slice_subrange(chars.as_slice(), 0, at - 1);
        assert(head@ =~= path@.take(at - 1));
        text::text_of(head)
    }
}

/// The entry `name` of a directory.
pub fn child_of(directory: &str, name: &str) -> (path: String)
    ensures
        path@ == child(directory@, name@),
{
    let chars = text::chars_of(directory);
    if chars.len() > 0 && chars[chars.len() - 1] == '/' {
        text::joined(directory, name)
    } else {
        let mut path = text::joined(directory, "/");
        path.append(name);
        path
    }
}

/// The path of an entry that is reached from the root by these names.
pub open spec fn located(entries: Seq<Seq<char>>) -> Seq<char>
    decreases entries.len(),
{
    if entries.len() == 0 {
        "/"@
    } else {
        child(located(entries.drop_last()), entries.last())
    }
}

/// The root and every entry on the way to a path, the path itself last.
pub open spec fn way_to(path: Seq<char>) -> Seq<Seq<char>> {
    Seq::new(
        named_entries(path).len() + 1,
        |i: int| located(named_entries(path).take(i)),
    )
}

/// The root and every entry on the way to a path, the path itself last.
pub fn way_of(path: &str) -> (way: Vec<String>)
    ensures
        outcome::seq_view(way@) == way_to(path@),
        way@.len() == named_entries(path@).len() + 1,
{
    let names = normal_components(path);
    let ghost entries = named_entries(path@);
    let mut way: Vec<String> = Vec::new();
    let mut here = "/".to_owned();
    let mut i: usize = 0;
    assert(entries.take(0).len() == 0);
    while i < names.len()
        invariant
            i <= names@.len(),
            entries == named_entries(path@),
            outcome::seq_view(names@) == entries,
            here@ == located(entries.take(i as int)),
            way@.len() == i,
            forall|k: int| 0 <= k < i ==> (#[trigger] way@[k])@ == located(entries.take(k)),
        decreases names@.len() - i,
    {
        let next = child_of(here.as_str(), names[i].as_str());
        assert(entries[i as int] == names@[i as int]@);
        assert(entries.take(i as int + 1).drop_last() =~= entries.take(i as int));
        way.push(here);
        here = next;
        i += 1;
    }
    way.push(here);
    assert(outcome::seq_view(way@) =~= way_to(path@));
    way
}

/// A path followed by every directory above it.
pub fn ancestors_of(path: &str) -> (all: Vec<String>)
    ensures
        outcome::seq_view(all@) == ancestors(path@),
{
    let mut all: Vec<String> = Vec::new();
    let mut here = path.to_owned();
    assert(outcome::seq_view(all@) + ancestors(here@) =~= ancestors(path@));
    loop
        invariant
            outcome::seq_view(all@) + ancestors(here@) == ancestors(path@),
        decreases here@.len(),
    {
        let chars = text::chars_of(here.as_str());
        let mut slash = false;
        let mut i: usize = 0;
        while i < chars.len()
            invariant
                i <= chars@.len(),
                slash <==> exists|k: int| 0 <= k < i && chars@[k] == '/',
            decreases chars@.len() - i,
        {
            if chars[i] == '/' {
                slash = true;
            }
            i += 1;
        }
        proof {
            lemma_has_slash(here@);
        }
        let ghost before = outcome::seq_view(all@);
        if !slash || chars.len() <= 1 {
            all.push(here);
            assert(outcome::seq_view(all@) =~= before + seq![here@]);
            return all;
        }
        let next = parent_of(here.as_str());
        proof {
            lemma_parent_is_shorter(here@);
        }
        all.push(here);
        assert(outcome::seq_view(all@) =~= before.push(here@));
        assert(before + (seq![here@] + ancestors(next@)) =~= before.push(here@) + ancestors(next@));
        here = next;
    }
}

proof fn lemma_has_slash(path: Seq<char>)
    ensures
        last_slash(path) >= 0 <==> exists|k: int| 0 <= k < path.len() && path[k] == '/',
    decreases path.len(),
{
    if path.len() > 0 {
        if path.last() == '/' {
            assert(path[path.len() - 1] == '/');
        } else {
            let head = path.drop_last();
            lemma_has_slash(head);
            if exists|k: int| 0 <= k < path.len() && path[k] == '/' {
                let k = choose|k: int| 0 <= k < path.len() && path[k] == '/';
                assert(head[k] == '/');
            }
            if exists|k: int| 0 <= k < head.len() && head[k] == '/' {
                let k = choose|k: int| 0 <= k < head.len() && head[k] == '/';
                assert(path[k] == '/');
            }
        }
    }
}

proof fn lemma_plain_segments_sum(left: Seq<Seq<char>>, right: Seq<Seq<char>>)
    ensures
        plain_segments(left + right) == plain_segments(left) + plain_segments(right),
    decreases right.len(),
{
    let all = left + right;
    if right.len() == 0 {
        assert(all =~= left);
        assert(plain_segments(left) + plain_segments(right) =~= plain_segments(left));
    } else {
        assert(all.drop_last() =~= left + right.drop_last());
        assert(all.last() == right.last());
        lemma_plain_segments_sum(left, right.drop_last());
        if is_plain_segment(right.last()) {
            assert((plain_segments(left) + plain_segments(right.drop_last())).push(right.last())
                =~= plain_segments(left) + plain_segments(right.drop_last()).push(right.last()));
        }
    }
}

/// The entries of a path are the names in it: the empty ones and those of the
/// directory itself are passed over, and what is left is in its order.
pub proof fn law_entries_are_plain_names(path: Seq<char>, k: int)
    ensures
        0 <= k < named_entries(path).len() ==> {
            let name = named_entries(path)[k];
            &&& name.len() > 0
            &&& name != "."@
            &&& name != ".."@
            &&& scan::split_on(path, '/').contains(name)
        },
        named_entries(path).len() <= scan::split_on(path, '/').len(),
{
    lemma_plain_segments_hold(scan::split_on(path, '/'), k);
}

proof fn lemma_plain_segments_hold(segments: Seq<Seq<char>>, k: int)
    ensures
        plain_segments(segments).len() <= segments.len(),
        0 <= k < plain_segments(segments).len() ==> is_plain_segment(plain_segments(segments)[k])
            && segments.contains(plain_segments(segments)[k]),
    decreases segments.len(),
{
    if segments.len() > 0 {
        let before = segments.drop_last();
        lemma_plain_segments_hold(before, k);
        if 0 <= k < plain_segments(segments).len() {
            if k < plain_segments(before).len() {
                let name = plain_segments(before)[k];
                let i = choose|i: int| 0 <= i < before.len() && before[i] == name;
                assert(segments[i] == name);
            } else {
                assert(segments[segments.len() - 1] == segments.last());
            }
        }
    }
}

/// What stands in a directory is found below it: the entries of its path are
/// those of the directory and then its own, however the directory is written.
pub proof fn law_children_stand_below_their_directory(directory: Seq<char>, name: Seq<char>)
    ensures
        named_entries(child(directory, name)) == named_entries(directory) + named_entries(name),
        is_upright(directory) ==> (is_upright(child(directory, name)) <==> !scan::split_on(
            name,
            '/',
        ).contains(".."@)),
        is_upright(directory) ==> is_same_location(directory, directory.push('/')),
{
    reveal_strlit("/");
    assert("/"@ =~= seq!['/']);
    let none = Seq::<char>::empty();
    let pieces = scan::split_on(directory, '/');
    let own = scan::split_on(name, '/');
    lemma_split_of_empty();
    reveal_strlit("..");
    let empty = seq![none];
    assert(plain_segments(empty) =~= Seq::empty()) by {
        reveal_with_fuel(plain_segments, 2);
        assert(empty.drop_last() =~= Seq::empty());
        assert(empty.last() == none);
    }
    scan::law_separators_part_the_pieces(directory, '/', none);
    assert(directory.push('/') =~= directory + seq!['/'] + none);
    lemma_plain_segments_sum(pieces, empty);
    assert(plain_segments(pieces) + Seq::<Seq<char>>::empty() =~= plain_segments(pieces));
    assert(scan::split_on(directory.push('/'), '/') == pieces + empty);
    if is_upright(directory) {
        assert(!(pieces + empty).contains(".."@)) by {
            if (pieces + empty).contains(".."@) {
                let i = choose|i: int|
                    0 <= i < (pieces + empty).len() && (pieces + empty)[i] == ".."@;
                if i < pieces.len() {
                    assert(pieces[i] == ".."@);
                }
            }
        }
        assert(directory.push('/')[0] == '/');
    }
    if directory.len() > 0 && directory.last() == '/' {
        let bare = directory.drop_last();
        let outer = scan::split_on(bare, '/');
        assert(directory =~= bare + seq!['/'] + none);
        assert(directory + name =~= bare + seq!['/'] + name);
        scan::law_separators_part_the_pieces(bare, '/', none);
        scan::law_separators_part_the_pieces(bare, '/', name);
        lemma_plain_segments_sum(outer, empty);
        lemma_plain_segments_sum(outer, own);
        assert(plain_segments(outer) + Seq::<Seq<char>>::empty() =~= plain_segments(outer));
        lemma_sum_contains(outer, own, ".."@);
        lemma_sum_contains(outer, empty, ".."@);
        assert(!empty.contains(".."@)) by {
            assert(empty[0] == none);
        }
    } else {
        assert(child(directory, name) =~= directory + seq!['/'] + name);
        scan::law_separators_part_the_pieces(directory, '/', name);
        lemma_plain_segments_sum(pieces, own);
        lemma_sum_contains(pieces, own, ".."@);
    }
    if directory.len() > 0 {
        assert(child(directory, name)[0] == directory[0]);
    }
}

proof fn lemma_split_of_empty()
    ensures
        scan::split_on(Seq::<char>::empty(), '/') == seq![Seq::<char>::empty()],
{
    let none = Seq::<char>::empty();
    scan::lemma_first_position(none, '/', 0);
    assert(scan::split_on(none, '/') =~= seq![none]);
}

proof fn lemma_sum_contains(left: Seq<Seq<char>>, right: Seq<Seq<char>>, name: Seq<char>)
    ensures
        (left + right).contains(name) <==> left.contains(name) || right.contains(name),
{
    let all = left + right;
    if left.contains(name) {
        let i = choose|i: int| 0 <= i < left.len() && left[i] == name;
        assert(all[i] == name);
    }
    if right.contains(name) {
        let i = choose|i: int| 0 <= i < right.len() && right[i] == name;
        assert(all[left.len() + i] == name);
    }
    if all.contains(name) {
        let i = choose|i: int| 0 <= i < all.len() && all[i] == name;
        if i < left.len() {
            assert(left[i] == name);
        } else {
            assert(right[i - left.len()] == name);
        }
    }
}

/// The parent of what stands in a directory is the directory.
pub proof fn law_parents_are_the_directories(directory: Seq<char>, name: Seq<char>)
    requires
        !name.contains('/'),
        directory.len() > 0,
        directory.last() != '/',
    ensures
        parent(child(directory, name)) == directory,
        parent(child("/"@, name)) == "/"@,
{
    reveal_strlit("/");
    assert("/"@ =~= seq!['/']);
    let path = directory + seq!['/'] + name;
    assert(child(directory, name) =~= path);
    assert forall|k: int| directory.len() < k < path.len() implies path[k] != '/' by {
        assert(path[k] == name[k - directory.len() - 1]);
        assert(name.contains(path[k]));
    }
    lemma_last_slash(path, directory.len() as int);
    assert(path.take(directory.len() as int) =~= directory);
    let top = "/"@ + name;
    assert(child("/"@, name) == top);
    assert forall|k: int| 0 < k < top.len() implies top[k] != '/' by {
        assert(top[k] == name[k - 1]);
        assert(name.contains(top[k]));
    }
    lemma_last_slash(top, 0);
}

/// The ancestors of a path are the path and then the parent of each, up to the
/// root of the filesystem for an absolute one.
pub proof fn law_ancestors_follow_the_parents(path: Seq<char>)
    requires
        path.len() > 0,
        path[0] == '/',
    ensures
        ancestors(path).len() >= 1,
        ancestors(path)[0] == path,
        forall|i: int|
            0 <= i < ancestors(path).len() - 1 ==> ancestors(path)[i + 1] == parent(
                #[trigger] ancestors(path)[i],
            ),
        ancestors(path).last() == "/"@,
    decreases path.len(),
{
    reveal_strlit("/");
    let all = ancestors(path);
    if path.len() > 1 {
        lemma_has_slash(path);
        lemma_parent_is_shorter(path);
        lemma_last_slash_bounds(path);
        let above = parent(path);
        assert(above.len() > 0 && above[0] == '/');
        law_ancestors_follow_the_parents(above);
        let rest = ancestors(above);
        assert(all == seq![path] + rest);
        assert forall|i: int| 0 <= i < all.len() - 1 implies all[i + 1] == parent(
            #[trigger] all[i],
        ) by {
            if i > 0 {
                assert(all[i] == rest[i - 1]);
                assert(all[i + 1] == rest[i]);
            } else {
                assert(all[1] == rest[0]);
            }
        }
    } else {
        assert(path =~= "/"@);
    }
}

/// The way to a path leads from the root of the filesystem down, one entry at a
/// time.
pub proof fn law_ways_lead_down_from_the_root(path: Seq<char>, i: int)
    requires
        0 <= i < named_entries(path).len(),
    ensures
        way_to(path).len() == named_entries(path).len() + 1,
        way_to(path)[0] == "/"@,
        way_to(path)[i + 1] == child(way_to(path)[i], named_entries(path)[i]),
{
    let entries = named_entries(path);
    assert(entries.take(i + 1).drop_last() =~= entries.take(i));
    assert(entries.take(0) =~= Seq::empty());
}

/// An upright path is absolute and never leads back up, and two of them are one
/// location exactly when they have the same entries.
pub proof fn law_upright_paths_are_compared_by_their_entries(left: Seq<char>, right: Seq<char>)
    ensures
        is_upright(left) <==> left.len() > 0 && left[0] == '/' && forall|k: int|
            0 <= k < scan::split_on(left, '/').len() ==> #[trigger] scan::split_on(left, '/')[k]
                != ".."@,
        is_same_location(left, right) <==> is_upright(left) && is_upright(right) && named_entries(
            left,
        ) == named_entries(right),
        is_descending(left) <==> is_upright(left) && named_entries(left).len() >= 1,
{
    let pieces = scan::split_on(left, '/');
    if exists|k: int| 0 <= k < pieces.len() && #[trigger] pieces[k] == ".."@ {
        let k = choose|k: int| 0 <= k < pieces.len() && #[trigger] pieces[k] == ".."@;
        assert(pieces.contains(pieces[k]));
    }
}

} // verus!
