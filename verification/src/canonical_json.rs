//! Canonical JSON text: compact objects whose members stand in a fixed order.
//!
//! String literals are spelled by `serde_json`; the framing of objects and the
//! order of their members belong to this module. Objects and string literals are
//! read by `serde_json`.
use vstd::prelude::*;

use crate::text;

verus! {

/// A JSON value as far as the canonical documents use it.
pub enum Json {
    Null,
    Text(Seq<char>),
    Number(nat),
    Object(Seq<(Seq<char>, Json)>),
}

/// How JSON spells one character inside a string literal.
pub open spec fn escaped_char(c: char) -> Seq<char> {
    if c == '"' {
        seq!['\\', '"']
    } else if c == '\\' {
        seq!['\\', '\\']
    } else if c == '\u{8}' {
        seq!['\\', 'b']
    } else if c == '\t' {
        seq!['\\', 't']
    } else if c == '\n' {
        seq!['\\', 'n']
    } else if c == '\u{c}' {
        seq!['\\', 'f']
    } else if c == '\r' {
        seq!['\\', 'r']
    } else if c <= '\u{1f}' {
        seq!['\\', 'u', '0', '0', text::hex_char(c as int / 16), text::hex_char(c as int % 16)]
    } else {
        seq![c]
    }
}

pub open spec fn escaped(value: Seq<char>) -> Seq<char>
    decreases value.len(),
{
    if value.len() == 0 {
        Seq::empty()
    } else {
        escaped_char(value[0]) + escaped(value.skip(1))
    }
}

/// The JSON string literal of `value`.
pub open spec fn json_text(value: Seq<char>) -> Seq<char> {
    seq!['"'] + escaped(value) + seq!['"']
}

/// The compact text of a value.
pub open spec fn rendered(value: Json) -> Seq<char>
    decreases value, 1nat,
{
    match value {
        Json::Null => "null"@,
        Json::Text(chars) => json_text(chars),
        Json::Number(n) => text::decimal(n),
        Json::Object(members) => seq!['{'] + rendered_members(members) + seq!['}'],
    }
}

pub open spec fn rendered_members(members: Seq<(Seq<char>, Json)>) -> Seq<char>
    decreases members, 0nat,
{
    if members.len() == 0 {
        Seq::empty()
    } else {
        json_text(members[0].0) + seq![':'] + rendered(members[0].1) + rendered_rest(
            members.skip(1),
        )
    }
}

/// The members after the first, each preceded by a comma.
pub open spec fn rendered_rest(members: Seq<(Seq<char>, Json)>) -> Seq<char>
    decreases members, 1nat,
{
    if members.len() == 0 {
        Seq::empty()
    } else {
        seq![','] + rendered_members(members)
    }
}

/// Outside function: `serde_json::to_string` on a string slice.
///
/// It writes the value as a JSON string literal: a quotation mark and a
/// backslash are preceded by a backslash; backspace, tab, line feed, form feed
/// and carriage return become their two-character escapes; every other
/// character below U+0020 becomes `\u00` and two lower-case hexadecimal digits;
/// all other characters stand unchanged. Writing a string never fails.
#[verifier::external_body]
fn serde_json_string(value: &str) -> (literal: String)
    ensures
        literal@ == json_text(value@),
{
    serde_json::to_string(value).expect("a string always has a JSON literal")
}

/// A JSON object under construction.
pub struct ObjectWriter {
    text: String,
    started: bool,
    members: Ghost<Seq<(Seq<char>, Json)>>,
}

impl ObjectWriter {
    pub closed spec fn members(&self) -> Seq<(Seq<char>, Json)> {
        self.members@
    }

    pub closed spec fn wf(&self) -> bool {
        &&& self.text@ == seq!['{'] + rendered_members(self.members@)
        &&& self.started == (self.members@.len() > 0)
    }

    pub fn new() -> (writer: Self)
        ensures
            writer.wf(),
            writer.members() == Seq::<(Seq<char>, Json)>::empty(),
    {
        let mut text = String::new();
        text.push('{');
        let writer = ObjectWriter { text, started: false, members: Ghost(Seq::empty()) };
        assert(writer.text@ =~= seq!['{'] + rendered_members(writer.members@));
        writer
    }

    /// Adds a member whose value is the text of `json`.
    pub fn value(&mut self, key: &str, value: &str, Ghost(json): Ghost<Json>)
        requires
            old(self).wf(),
            value@ == rendered(json),
        ensures
            final(self).wf(),
            final(self).members() == old(self).members().push((key@, json)),
    {
        let ghost before = self.members@;
        let literal = serde_json_string(key);
        if self.started {
            self.text.push(',');
        }
        self.started = true;
        self.text.append(literal.as_str());
        self.text.push(':');
        self.text.append(value);
        proof {
            self.members@ = before.push((key@, json));
            lemma_rendered_push(before, (key@, json));
            assert(self.text@ =~= seq!['{'] + rendered_members(self.members@));
        }
    }

    /// Adds a member whose value is a string.
    pub fn string(&mut self, key: &str, value: &str)
        requires
            old(self).wf(),
        ensures
            final(self).wf(),
            final(self).members() == old(self).members().push((key@, Json::Text(value@))),
    {
        let literal = serde_json_string(value);
        self.value(key, literal.as_str(), Ghost(Json::Text(value@)));
    }

    /// Adds a member whose value is a number.
    pub fn number(&mut self, key: &str, value: u64)
        requires
            old(self).wf(),
        ensures
            final(self).wf(),
            final(self).members() == old(self).members().push((key@, Json::Number(value as nat))),
    {
        let literal = text::decimal_text(value);
        self.value(key, literal.as_str(), Ghost(Json::Number(value as nat)));
    }

    /// Adds a member whose value is `null`.
    pub fn null(&mut self, key: &str)
        requires
            old(self).wf(),
        ensures
            final(self).wf(),
            final(self).members() == old(self).members().push((key@, Json::Null)),
    {
        self.value(key, "null", Ghost(Json::Null));
    }

    pub fn finish(self) -> (object: String)
        requires
            self.wf(),
        ensures
            object@ == rendered(Json::Object(self.members())),
    {
        let mut object = self.text;
        object.push('}');
        assert(object@ =~= rendered(Json::Object(self.members())));
        object
    }
}

/// No key stands twice.
pub open spec fn has_distinct_keys<V>(members: Seq<(Seq<char>, V)>) -> bool {
    forall|i: int, j: int|
        0 <= i < j < members.len() ==> (#[trigger] members[i]).0 != (#[trigger] members[j]).0
}

/// The members of an object as they were read: keys, and the texts of values.
pub open spec fn pairs(read: Seq<(String, String)>) -> Seq<(Seq<char>, Seq<char>)> {
    Seq::new(read.len(), |i: int| (read[i].0@, read[i].1@))
}

/// What was read is exactly these members, in whatever order, each value in its
/// canonical text.
pub open spec fn spells(
    read: Seq<(Seq<char>, Seq<char>)>,
    members: Seq<(Seq<char>, Json)>,
) -> bool {
    &&& forall|i: int|
        0 <= i < members.len() ==> read.contains(
            ((#[trigger] members[i]).0, rendered(members[i].1)),
        )
    &&& forall|j: int|
        0 <= j < read.len() ==> exists|i: int|
            0 <= i < members.len() && (#[trigger] members[i]).0 == (#[trigger] read[j]).0
}

/// None of the members stands under this key.
pub open spec fn lacks_key<V>(members: Seq<(Seq<char>, V)>, key: Seq<char>) -> bool {
    forall|i: int| 0 <= i < members.len() ==> (#[trigger] members[i]).0 != key
}

/// The members of the JSON object that a text spells, in the order of their
/// keys, each with its value's text as it stands; none if the text spells no
/// object.
pub uninterp spec fn object_members(text: Seq<char>) -> Option<Seq<(Seq<char>, Seq<char>)>>;

/// The string that a JSON string literal spells, or none.
pub uninterp spec fn string_value(literal: Seq<char>) -> Option<Seq<char>>;

/// Outside function: `serde_json::from_str` into a map from strings to raw
/// values, handed out member by member.
///
/// What comes out depends on the text alone and holds no key twice. The compact
/// text of an object whose keys are distinct is read as its members, each value
/// in the very text that stands for it. What any other text is read as is left
/// to the name [`object_members`].
#[verifier::external_body]
fn serde_json_members(text: &str) -> (r: Option<Vec<(String, String)>>)
    ensures
        (match r {
            Some(read) => Some(pairs(read@)),
            None => None,
        }) == object_members(text@),
        r matches Some(read) ==> has_distinct_keys(pairs(read@)),
        forall|members: Seq<(Seq<char>, Json)>|
            text@ == #[trigger] rendered(Json::Object(members)) && has_distinct_keys(members)
                ==> r is Some && spells(pairs(r->0@), members),
{
    let read: std::collections::BTreeMap<String, Box<serde_json::value::RawValue>> =
        serde_json::from_str(text).ok()?;
    Some(read.into_iter().map(|(key, value)| (key, value.get().to_owned())).collect())
}

/// Outside function: `serde_json::from_str` into a `String`.
///
/// What comes out depends on the text alone. The literal that stands for a text
/// is read as that text. What any other literal is read as is left to the name
/// [`string_value`].
#[verifier::external_body]
fn serde_json_text(literal: &str) -> (r: Option<String>)
    ensures
        (match r {
            Some(value) => Some(value@),
            None => None,
        }) == string_value(literal@),
        forall|value: Seq<char>|
            literal@ == #[trigger] json_text(value) ==> r is Some && r->0@ == value,
{
    serde_json::from_str(literal).ok()
}

/// The text of the value that stands first under a key.
pub open spec fn lookup(read: Seq<(Seq<char>, Seq<char>)>, key: Seq<char>) -> Option<Seq<char>>
    decreases read.len(),
{
    if read.len() == 0 {
        None
    } else if read[0].0 == key {
        Some(read[0].1)
    } else {
        lookup(read.skip(1), key)
    }
}

proof fn lemma_lookup(read: Seq<(Seq<char>, Seq<char>)>, key: Seq<char>, value: Seq<char>)
    requires
        has_distinct_keys(read),
        read.contains((key, value)),
    ensures
        lookup(read, key) == Some(value),
    decreases read.len(),
{
    let at = choose|i: int| 0 <= i < read.len() && read[i] == (key, value);
    if read[0].0 == key {
        assert(at == 0);
    } else {
        let rest = read.skip(1);
        assert(rest[at - 1] == (key, value));
        assert forall|i: int, j: int| 0 <= i < j < rest.len() implies (#[trigger] rest[i]).0 != (
        #[trigger] rest[j]).0 by {
            assert(read[i + 1].0 != read[j + 1].0);
        }
        lemma_lookup(rest, key, value);
    }
}

proof fn lemma_lookup_nothing(read: Seq<(Seq<char>, Seq<char>)>, key: Seq<char>)
    requires
        lacks_key(read, key),
    ensures
        lookup(read, key) is None,
    decreases read.len(),
{
    if read.len() > 0 {
        let rest = read.skip(1);
        assert(read[0].0 != key);
        assert forall|i: int| 0 <= i < rest.len() implies (#[trigger] rest[i]).0 != key by {
            assert(read[i + 1].0 != key);
        }
        lemma_lookup_nothing(rest, key);
    }
}

/// Members under distinct keys, followed by others under distinct other keys.
pub proof fn lemma_distinct_sum(left: Seq<(Seq<char>, Json)>, right: Seq<(Seq<char>, Json)>)
    requires
        has_distinct_keys(left),
        has_distinct_keys(right),
        forall|j: int| 0 <= j < right.len() ==> lacks_key(left, (#[trigger] right[j]).0),
    ensures
        has_distinct_keys(left + right),
{
    let all = left + right;
    assert forall|i: int, j: int| 0 <= i < j < all.len() implies (#[trigger] all[i]).0 != (
    #[trigger] all[j]).0 by {
        if i < left.len() && j >= left.len() {
            assert(lacks_key(left, right[j - left.len()].0));
            assert(left[i].0 != right[j - left.len()].0);
        }
    }
}

/// A JSON object that was read.
pub struct ObjectReader {
    members: Vec<(String, String)>,
}

impl View for ObjectReader {
    type V = Seq<(Seq<char>, Seq<char>)>;

    closed spec fn view(&self) -> Seq<(Seq<char>, Seq<char>)> {
        pairs(self.members@)
    }
}

impl ObjectReader {
    /// Under this key stands the canonical text of this value.
    pub open spec fn holds(&self, key: Seq<char>, value: Json) -> bool {
        lookup(self@, key) == Some(rendered(value))
    }

    /// The object holds exactly these members.
    pub open spec fn holds_all(&self, members: Seq<(Seq<char>, Json)>) -> bool {
        &&& forall|i: int|
            0 <= i < members.len() ==> self.holds((#[trigger] members[i]).0, members[i].1)
        &&& forall|key: Seq<char>|
            lacks_key(members, key) ==> (#[trigger] lookup(self@, key)) is None
    }

    /// Reads the object that a text spells.
    pub fn read(text: &str) -> (r: Option<Self>)
        ensures
            (match r {
                Some(reader) => Some(reader@),
                None => None,
            }) == object_members(text@),
            forall|members: Seq<(Seq<char>, Json)>|
                text@ == #[trigger] rendered(Json::Object(members)) && has_distinct_keys(members)
                    ==> r is Some && r->0.holds_all(members),
    {
        let members = serde_json_members(text)?;
        let reader = ObjectReader { members };
        proof {
            let read = reader@;
            assert forall|members: Seq<(Seq<char>, Json)>|
                text@ == #[trigger] rendered(Json::Object(members)) && has_distinct_keys(
                    members,
                ) implies reader.holds_all(members) by {
                assert forall|i: int| 0 <= i < members.len() implies reader.holds(
                    (#[trigger] members[i]).0,
                    members[i].1,
                ) by {
                    lemma_lookup(read, members[i].0, rendered(members[i].1));
                }
                assert forall|key: Seq<char>| lacks_key(members, key) implies (#[trigger] lookup(
                    read,
                    key,
                )) is None by {
                    lemma_lookup_nothing(read, key);
                }
            }
        }
        Some(reader)
    }

    fn find(&self, key: &str) -> (value: Option<&String>)
        ensures
            match value {
                Some(text) => lookup(self@, key@) == Some(text@),
                None => lookup(self@, key@) is None,
            },
    {
        let mut i: usize = 0;
        assert(self@.skip(0) =~= self@);
        while i < self.members.len()
            invariant
                i <= self.members@.len(),
                lookup(self@, key@) == lookup(self@.skip(i as int), key@),
            decreases self.members@.len() - i,
        {
            let ghost rest = self@.skip(i as int);
            assert(rest[0] == (self.members@[i as int].0@, self.members@[i as int].1@));
            assert(rest.skip(1) =~= self@.skip(i as int + 1));
            if text::same_text(self.members[i].0.as_str(), key) {
                return Some(&self.members[i].1);
            }
            i += 1;
        }
        None
    }

    /// Whether anything stands under a key.
    pub fn has(&self, key: &str) -> (r: bool)
        ensures
            r == (lookup(self@, key@) is Some),
    {
        self.find(key).is_some()
    }

    /// The string under a key.
    pub fn string(&self, key: &str) -> (r: Option<String>)
        ensures
            (match r {
                Some(value) => Some(value@),
                None => None,
            }) == (match lookup(self@, key@) {
                Some(literal) => string_value(literal),
                None => None,
            }),
            forall|value: Seq<char>|
                #[trigger] self.holds(key@, Json::Text(value)) ==> r is Some && r->0@ == value,
    {
        let literal = self.find(key)?;
        serde_json_text(literal.as_str())
    }

    /// The number under a key: digits alone, within 64 bits.
    pub fn number(&self, key: &str) -> (r: Option<u64>)
        ensures
            match (r, lookup(self@, key@)) {
                (Some(value), Some(digits)) => digits.len() > 0 && text::all_digits(digits)
                    && value == text::decimal_value(digits),
                (None, Some(digits)) => digits.len() == 0 || !text::all_digits(digits)
                    || text::decimal_value(digits) > u64::MAX,
                (Some(_), None) => false,
                (None, None) => true,
            },
            forall|value: u64|
                #[trigger] self.holds(key@, Json::Number(value as nat)) ==> r == Some(value),
    {
        let digits = self.find(key)?;
        let value = text::digits_value(text::chars_of(digits.as_str()).as_slice());
        assert forall|n: u64| #[trigger] self.holds(key@, Json::Number(n as nat)) implies value
            == Some(n) by {
            text::lemma_decimal_spells(n as nat);
        }
        value
    }

    /// The object under a key.
    pub fn object(&self, key: &str) -> (r: Option<Self>)
        ensures
            (match r {
                Some(reader) => Some(reader@),
                None => None,
            }) == (match lookup(self@, key@) {
                Some(object) => object_members(object),
                None => None,
            }),
            forall|members: Seq<(Seq<char>, Json)>|
                #[trigger] self.holds(key@, Json::Object(members)) && has_distinct_keys(members)
                    ==> r is Some && r->0.holds_all(members),
    {
        let object = self.find(key)?;
        Self::read(object.as_str())
    }
}

proof fn lemma_regroup(a: Seq<char>, b: Seq<char>, c: Seq<char>, d: Seq<char>)
    ensures
        a + (b + (c + d)) == a + (b + c) + d,
        a + (b + c) == a + b + c,
{
    assert(a + (b + (c + d)) =~= a + (b + c) + d);
    assert(a + (b + c) =~= a + b + c);
}

spec fn rendered_member(member: (Seq<char>, Json)) -> Seq<char> {
    json_text(member.0) + seq![':'] + rendered(member.1)
}

proof fn lemma_rendered_push(members: Seq<(Seq<char>, Json)>, last: (Seq<char>, Json))
    ensures
        rendered_members(members.push(last)) == rendered_members(members) + ((if members.len()
            == 0 {
            Seq::<char>::empty()
        } else {
            seq![',']
        }) + rendered_member(last)),
    decreases members.len(),
{
    let all = members.push(last);
    let tail = rendered_member(last);
    let none = Seq::<char>::empty();
    if members.len() == 0 {
        assert(all.skip(1) =~= Seq::empty());
        assert(rendered_members(all) == tail + none);
        assert(tail + none =~= none + (none + tail));
    } else {
        let rest = members.skip(1);
        assert(all.skip(1) =~= rest.push(last));
        lemma_rendered_push(rest, last);
        let head = rendered_member(members[0]);
        let body = rendered_members(rest);
        assert(rendered_members(all) == head + (seq![','] + rendered_members(rest.push(last))));
        if members.len() == 1 {
            assert(rest =~= Seq::empty());
            assert(none + (none + tail) =~= tail);
            assert(rendered_members(members) == head + none);
            assert(head + none =~= head);
        } else {
            assert(rendered_members(members) == head + (seq![','] + body));
            lemma_regroup(head, seq![','], body, seq![','] + tail);
        }
    }
}

/// Where a value ends: at the end of the text, a comma or a closing brace.
pub open spec fn ends_value(rest: Seq<char>) -> bool {
    rest.len() == 0 || rest[0] == ',' || rest[0] == '}'
}

proof fn lemma_tail(a: Seq<char>, x: Seq<char>, b: Seq<char>, y: Seq<char>)
    requires
        a + x == b + y,
        a.len() == b.len(),
    ensures
        a == b,
        x == y,
{
    assert(a =~= (a + x).take(a.len() as int));
    assert(b =~= (b + y).take(b.len() as int));
    assert(x =~= (a + x).skip(a.len() as int));
    assert(y =~= (b + y).skip(b.len() as int));
}

proof fn lemma_escaped_char_unique(c: char, x: Seq<char>, d: char, y: Seq<char>)
    requires
        escaped_char(c) + x == escaped_char(d) + y,
    ensures
        c == d,
        x == y,
{
    let l = escaped_char(c) + x;
    let r = escaped_char(d) + y;
    assert(l[0] == escaped_char(c)[0] && r[0] == escaped_char(d)[0]);
    if escaped_char(c).len() > 1 {
        assert(l[1] == escaped_char(c)[1]);
    }
    if escaped_char(d).len() > 1 {
        assert(r[1] == escaped_char(d)[1]);
    }
    if escaped_char(c).len() == 6 && escaped_char(d).len() == 6 {
        assert(l[4] == escaped_char(c)[4] && l[5] == escaped_char(c)[5]);
        assert(r[4] == escaped_char(d)[4] && r[5] == escaped_char(d)[5]);
        let hi = c as int / 16;
        let hj = d as int / 16;
        assert(hi == hj);
        assert(c as int % 16 == d as int % 16);
    }
    assert(c == d);
    lemma_tail(escaped_char(c), x, escaped_char(d), y);
}

/// A string literal determines its value and where it ends.
proof fn lemma_escaped_unique(a: Seq<char>, x: Seq<char>, b: Seq<char>, y: Seq<char>)
    requires
        escaped(a) + seq!['"'] + x == escaped(b) + seq!['"'] + y,
    ensures
        a == b,
        x == y,
    decreases a.len(),
{
    let l = escaped(a) + seq!['"'] + x;
    let r = escaped(b) + seq!['"'] + y;
    if a.len() == 0 && b.len() == 0 {
        lemma_tail(escaped(a) + seq!['"'], x, escaped(b) + seq!['"'], y);
        assert(a =~= b);
    } else if a.len() == 0 {
        assert(l[0] == '"');
        assert(r[0] == escaped_char(b[0])[0]);
        assert(false);
    } else if b.len() == 0 {
        assert(r[0] == '"');
        assert(l[0] == escaped_char(a[0])[0]);
        assert(false);
    } else {
        let u = escaped(a.skip(1)) + seq!['"'] + x;
        let v = escaped(b.skip(1)) + seq!['"'] + y;
        assert(l =~= escaped_char(a[0]) + u);
        assert(r =~= escaped_char(b[0]) + v);
        lemma_escaped_char_unique(a[0], u, b[0], v);
        lemma_escaped_unique(a.skip(1), x, b.skip(1), y);
        assert(a =~= seq![a[0]] + a.skip(1));
        assert(b =~= seq![b[0]] + b.skip(1));
    }
}

proof fn lemma_json_text_unique(a: Seq<char>, x: Seq<char>, b: Seq<char>, y: Seq<char>)
    requires
        json_text(a) + x == json_text(b) + y,
    ensures
        a == b,
        x == y,
{
    assert((json_text(a) + x).skip(1) =~= escaped(a) + seq!['"'] + x);
    assert((json_text(b) + y).skip(1) =~= escaped(b) + seq!['"'] + y);
    lemma_escaped_unique(a, x, b, y);
}

proof fn lemma_decimal_unique(n: nat, x: Seq<char>, m: nat, y: Seq<char>)
    requires
        text::decimal(n) + x == text::decimal(m) + y,
        ends_value(x),
        ends_value(y),
    ensures
        n == m,
        x == y,
{
    text::lemma_decimal_spells(n);
    text::lemma_decimal_spells(m);
    let a = text::decimal(n);
    let b = text::decimal(m);
    if a.len() < b.len() {
        assert((a + x)[a.len() as int] == b[a.len() as int]);
        assert(text::is_decimal_digit(b[a.len() as int]));
        assert(x.len() > 0 && x[0] == b[a.len() as int]);
        assert(false);
    }
    if b.len() < a.len() {
        assert((b + y)[b.len() as int] == a[b.len() as int]);
        assert(text::is_decimal_digit(a[b.len() as int]));
        assert(y.len() > 0 && y[0] == a[b.len() as int]);
        assert(false);
    }
    lemma_tail(a, x, b, y);
}

/// The first character tells the kinds of value apart.
proof fn lemma_rendered_first(value: Json)
    ensures
        rendered(value).len() > 0,
        match value {
            Json::Null => rendered(value)[0] == 'n',
            Json::Text(_) => rendered(value)[0] == '"',
            Json::Number(_) => text::is_decimal_digit(rendered(value)[0]),
            Json::Object(_) => rendered(value)[0] == '{',
        },
{
    reveal_strlit("null");
    match value {
        Json::Number(n) => {
            text::lemma_decimal_spells(n);
        },
        _ => {},
    }
}

/// Canonical text determines the value it spells: whatever follows, two values
/// with the same text are the same value and end in the same place.
pub proof fn lemma_rendered_unique(a: Json, x: Seq<char>, b: Json, y: Seq<char>)
    requires
        rendered(a) + x == rendered(b) + y,
        ends_value(x),
        ends_value(y),
    ensures
        a == b,
        x == y,
    decreases a, 1nat,
{
    lemma_rendered_first(a);
    lemma_rendered_first(b);
    assert((rendered(a) + x)[0] == rendered(a)[0]);
    assert((rendered(b) + y)[0] == rendered(b)[0]);
    match (a, b) {
        (Json::Null, Json::Null) => {
            lemma_tail(rendered(a), x, rendered(b), y);
        },
        (Json::Text(s), Json::Text(t)) => {
            lemma_json_text_unique(s, x, t, y);
        },
        (Json::Number(n), Json::Number(m)) => {
            lemma_decimal_unique(n, x, m, y);
        },
        (Json::Object(ms), Json::Object(ns)) => {
            assert((rendered(a) + x).skip(1) =~= rendered_members(ms) + (seq!['}'] + x));
            assert((rendered(b) + y).skip(1) =~= rendered_members(ns) + (seq!['}'] + y));
            lemma_members_unique(ms, x, ns, y);
        },
        _ => {
            assert(false);
        },
    }
}

proof fn lemma_members_unique(
    ms: Seq<(Seq<char>, Json)>,
    x: Seq<char>,
    ns: Seq<(Seq<char>, Json)>,
    y: Seq<char>,
)
    requires
        rendered_members(ms) + (seq!['}'] + x) == rendered_members(ns) + (seq!['}'] + y),
    ensures
        ms == ns,
        x == y,
    decreases ms, 0nat,
{
    let l = rendered_members(ms) + (seq!['}'] + x);
    let r = rendered_members(ns) + (seq!['}'] + y);
    if ms.len() == 0 && ns.len() == 0 {
        assert(l =~= seq!['}'] + x);
        assert(r =~= seq!['}'] + y);
        lemma_tail(seq!['}'], x, seq!['}'], y);
        assert(ms =~= ns);
    } else if ms.len() == 0 {
        assert(l[0] == '}');
        assert(r[0] == '"');
        assert(false);
    } else if ns.len() == 0 {
        assert(r[0] == '}');
        assert(l[0] == '"');
        assert(false);
    } else {
        let u0 = rendered_rest(ms.skip(1)) + (seq!['}'] + x);
        let v0 = rendered_rest(ns.skip(1)) + (seq!['}'] + y);
        let u1 = seq![':'] + (rendered(ms[0].1) + u0);
        let v1 = seq![':'] + (rendered(ns[0].1) + v0);
        assert(l =~= json_text(ms[0].0) + u1);
        assert(r =~= json_text(ns[0].0) + v1);
        lemma_json_text_unique(ms[0].0, u1, ns[0].0, v1);
        lemma_tail(seq![':'], rendered(ms[0].1) + u0, seq![':'], rendered(ns[0].1) + v0);
        lemma_rendered_unique(ms[0].1, u0, ns[0].1, v0);
        assert(ms[0] == ns[0]);
        lemma_rest_unique(ms.skip(1), x, ns.skip(1), y);
        assert(ms =~= seq![ms[0]] + ms.skip(1));
        assert(ns =~= seq![ns[0]] + ns.skip(1));
    }
}

proof fn lemma_rest_unique(
    ms: Seq<(Seq<char>, Json)>,
    x: Seq<char>,
    ns: Seq<(Seq<char>, Json)>,
    y: Seq<char>,
)
    requires
        rendered_rest(ms) + (seq!['}'] + x) == rendered_rest(ns) + (seq!['}'] + y),
    ensures
        ms == ns,
        x == y,
    decreases ms, 1nat,
{
    let l = rendered_rest(ms) + (seq!['}'] + x);
    let r = rendered_rest(ns) + (seq!['}'] + y);
    if ms.len() == 0 && ns.len() == 0 {
        assert(l =~= seq!['}'] + x);
        assert(r =~= seq!['}'] + y);
        lemma_tail(seq!['}'], x, seq!['}'], y);
        assert(ms =~= ns);
    } else if ms.len() == 0 {
        assert(l[0] == '}');
        assert(r[0] == ',');
        assert(false);
    } else if ns.len() == 0 {
        assert(r[0] == '}');
        assert(l[0] == ',');
        assert(false);
    } else {
        let u = rendered_members(ms) + (seq!['}'] + x);
        let v = rendered_members(ns) + (seq!['}'] + y);
        assert(l =~= seq![','] + u);
        assert(r =~= seq![','] + v);
        lemma_tail(seq![','], u, seq![','], v);
        lemma_members_unique(ms, x, ns, y);
    }
}

/// A character that stands unchanged inside a string literal.
pub open spec fn is_plain_char(c: char) -> bool {
    c > '\u{1f}' && c != '"' && c != '\\'
}

pub open spec fn is_plain(value: Seq<char>) -> bool {
    forall|i: int| 0 <= i < value.len() ==> is_plain_char(#[trigger] value[i])
}

/// The literal of a plain text is two quotation marks longer than the text.
pub proof fn lemma_plain_length(value: Seq<char>)
    requires
        is_plain(value),
    ensures
        json_text(value).len() == value.len() + 2,
    decreases value.len(),
{
    if value.len() > 0 {
        assert forall|i: int| 0 <= i < value.skip(1).len() implies is_plain_char(
            #[trigger] value.skip(1)[i],
        ) by {
            assert(is_plain_char(value[i + 1]));
        }
        lemma_plain_length(value.skip(1));
        assert(is_plain_char(value[0]));
        assert(escaped_char(value[0]).len() == 1);
    }
}

/// A character takes six characters at most inside a string literal.
pub proof fn lemma_literal_length(value: Seq<char>)
    ensures
        json_text(value).len() <= 6 * value.len() + 2,
    decreases value.len(),
{
    if value.len() > 0 {
        lemma_literal_length(value.skip(1));
    }
}

/// The length of the members of an object, each with its colon and a comma.
pub open spec fn members_length(members: Seq<(Seq<char>, Json)>) -> nat
    decreases members.len(),
{
    if members.len() == 0 {
        0
    } else {
        members_length(members.drop_last()) + json_text(members.last().0).len() + rendered(
            members.last().1,
        ).len() + 2
    }
}

pub proof fn lemma_members_length_push(
    members: Seq<(Seq<char>, Json)>,
    key: Seq<char>,
    value: Json,
)
    ensures
        members_length(members.push((key, value))) == members_length(members) + json_text(key).len()
            + rendered(value).len() + 2,
{
    assert(members.push((key, value)).drop_last() =~= members);
}

proof fn lemma_members_bound(members: Seq<(Seq<char>, Json)>)
    ensures
        rendered_members(members).len() <= members_length(members),
    decreases members.len(),
{
    if members.len() > 0 {
        let front = members.drop_last();
        lemma_members_bound(front);
        lemma_rendered_push(front, members.last());
        assert(front.push(members.last()) =~= members);
    }
}

/// An object is no longer than its members, each with a comma, and its braces.
pub proof fn lemma_object_length(members: Seq<(Seq<char>, Json)>)
    ensures
        rendered(Json::Object(members)).len() <= members_length(members) + 2,
{
    lemma_members_bound(members);
}

/// A character takes four bytes at most.
pub proof fn lemma_byte_length(chars: Seq<char>)
    ensures
        vstd::utf8::encode_utf8(chars).len() <= 4 * chars.len(),
    decreases chars.len(),
{
    if chars.len() > 0 {
        lemma_byte_length(chars.drop_first());
    }
}

/// The number of bytes that encode a text.
pub open spec fn bytes_of(chars: Seq<char>) -> nat {
    vstd::utf8::encode_utf8(chars).len()
}

proof fn lemma_bytes_of_sum(left: Seq<char>, right: Seq<char>)
    ensures
        bytes_of(left + right) == bytes_of(left) + bytes_of(right),
    decreases left.len(),
{
    if left.len() == 0 {
        assert(left + right =~= right);
    } else {
        assert((left + right).drop_first() =~= left.drop_first() + right);
        lemma_bytes_of_sum(left.drop_first(), right);
    }
}

proof fn lemma_bytes_of_char(c: char)
    ensures
        bytes_of(seq![c]) == vstd::utf8::encode_scalar(c as u32).len(),
{
    reveal_with_fuel(vstd::utf8::encode_utf8, 2);
    assert(seq![c].drop_first() =~= Seq::<char>::empty());
}

proof fn lemma_escaped_bytes(value: Seq<char>)
    requires
        forall|i: int| 0 <= i < value.len() ==> #[trigger] value[i] > '\u{1f}',
    ensures
        bytes_of(escaped(value)) <= 2 * bytes_of(value),
    decreases value.len(),
{
    if value.len() > 0 {
        let rest = value.skip(1);
        assert forall|i: int| 0 <= i < rest.len() implies #[trigger] rest[i] > '\u{1f}' by {
            assert(value[i + 1] > '\u{1f}');
        }
        lemma_escaped_bytes(rest);
        lemma_bytes_of_sum(escaped_char(value[0]), escaped(rest));
        lemma_bytes_of_char(value[0]);
        assert(value.drop_first() =~= rest);
        if escaped_char(value[0]).len() == 1 {
            assert(escaped_char(value[0]) =~= seq![value[0]]);
        } else {
            lemma_bytes_of_sum(seq!['\\'], seq![value[0]]);
            lemma_bytes_of_char('\\');
            assert(escaped_char(value[0]) =~= seq!['\\'] + seq![value[0]]);
        }
    }
}

/// The literal of a text without control characters takes no more than twice
/// the bytes of the text, and two more.
pub proof fn lemma_literal_bytes(value: Seq<char>)
    requires
        forall|i: int| 0 <= i < value.len() ==> #[trigger] value[i] > '\u{1f}',
    ensures
        bytes_of(json_text(value)) <= 2 * bytes_of(value) + 2,
{
    lemma_escaped_bytes(value);
    lemma_bytes_of_sum(seq!['"'] + escaped(value), seq!['"']);
    lemma_bytes_of_sum(seq!['"'], escaped(value));
    lemma_bytes_of_char('"');
}

/// The bytes of the members of an object, each with its colon and a comma.
pub open spec fn members_bytes(members: Seq<(Seq<char>, Json)>) -> nat
    decreases members.len(),
{
    if members.len() == 0 {
        0
    } else {
        members_bytes(members.drop_last()) + bytes_of(json_text(members.last().0)) + bytes_of(
            rendered(members.last().1),
        ) + 2
    }
}

pub proof fn lemma_members_bytes_push(members: Seq<(Seq<char>, Json)>, key: Seq<char>, value: Json)
    ensures
        members_bytes(members.push((key, value))) == members_bytes(members) + bytes_of(
            json_text(key),
        ) + bytes_of(rendered(value)) + 2,
{
    assert(members.push((key, value)).drop_last() =~= members);
}

proof fn lemma_members_bytes_bound(members: Seq<(Seq<char>, Json)>)
    ensures
        bytes_of(rendered_members(members)) <= members_bytes(members),
    decreases members.len(),
{
    if members.len() > 0 {
        let front = members.drop_last();
        let last = members.last();
        lemma_members_bytes_bound(front);
        lemma_rendered_push(front, last);
        assert(front.push(last) =~= members);
        let comma = if front.len() == 0 {
            Seq::<char>::empty()
        } else {
            seq![',']
        };
        lemma_bytes_of_sum(rendered_members(front), comma + rendered_member(last));
        lemma_bytes_of_sum(comma, rendered_member(last));
        lemma_bytes_of_sum(json_text(last.0) + seq![':'], rendered(last.1));
        lemma_bytes_of_sum(json_text(last.0), seq![':']);
        lemma_bytes_of_char(',');
        lemma_bytes_of_char(':');
    }
}

/// An object takes no more bytes than its members, each with a comma, and its
/// braces.
pub proof fn lemma_object_bytes(members: Seq<(Seq<char>, Json)>)
    ensures
        bytes_of(rendered(Json::Object(members))) <= members_bytes(members) + 2,
{
    lemma_members_bytes_bound(members);
    lemma_bytes_of_sum(seq!['{'] + rendered_members(members), seq!['}']);
    lemma_bytes_of_sum(seq!['{'], rendered_members(members));
    lemma_bytes_of_char('{');
    lemma_bytes_of_char('}');
}

/// Two values with the same canonical text are the same value.
pub proof fn law_canonical_text_is_injective(a: Json, b: Json)
    requires
        rendered(a) == rendered(b),
    ensures
        a == b,
{
    assert(rendered(a) + Seq::empty() =~= rendered(a));
    assert(rendered(b) + Seq::empty() =~= rendered(b));
    lemma_rendered_unique(a, Seq::empty(), b, Seq::empty());
}

/// Two values with the same canonical bytes are the same value.
pub proof fn law_canonical_bytes_are_injective(a: Json, b: Json)
    requires
        vstd::utf8::encode_utf8(rendered(a)) == vstd::utf8::encode_utf8(rendered(b)),
    ensures
        a == b,
{
    vstd::utf8::encode_utf8_decode_utf8(rendered(a));
    vstd::utf8::encode_utf8_decode_utf8(rendered(b));
    law_canonical_text_is_injective(a, b);
}

/// Text without control characters, quotes or backslashes stands between its
/// quotes as it is.
pub proof fn law_plain_text_stands_between_quotes(value: Seq<char>)
    requires
        is_plain(value),
    ensures
        rendered(Json::Text(value)) == seq!['"'] + value + seq!['"'],
    decreases value.len(),
{
    if value.len() > 0 {
        let rest = value.skip(1);
        assert(is_plain_char(value[0]));
        assert(is_plain(rest)) by {
            assert forall|i: int| 0 <= i < rest.len() implies is_plain_char(#[trigger] rest[i]) by {
                assert(rest[i] == value[i + 1]);
            }
        }
        law_plain_text_stands_between_quotes(rest);
        assert(escaped(rest) =~= rest) by {
            let quoted = seq!['"'] + escaped(rest) + seq!['"'];
            assert(quoted.subrange(1, quoted.len() - 1) =~= escaped(rest));
            assert((seq!['"'] + rest + seq!['"']).subrange(1, quoted.len() - 1) =~= rest);
        }
        assert(seq![value[0]] + rest =~= value);
    } else {
        assert(escaped(value) =~= value);
    }
}

/// Objects are braces around their members, with a colon behind each key, a
/// comma between members and no blank anywhere; numbers are their digits and
/// nothing is `null`.
pub proof fn law_values_are_rendered_without_blanks(
    key: Seq<char>,
    value: Json,
    other: Seq<char>,
    second: Json,
    n: nat,
)
    ensures
        rendered(Json::Null) == seq!['n', 'u', 'l', 'l'],
        rendered(Json::Number(n)) == text::decimal(n),
        rendered(Json::Object(Seq::empty())) == seq!['{', '}'],
        rendered(Json::Object(seq![(key, value)])) == seq!['{'] + rendered(Json::Text(key))
            + seq![':'] + rendered(value) + seq!['}'],
        rendered(Json::Object(seq![(key, value), (other, second)])) == seq!['{'] + rendered(
            Json::Text(key),
        ) + seq![':'] + rendered(value) + seq![','] + rendered(Json::Text(other)) + seq![':']
            + rendered(second) + seq!['}'],
{
    reveal_strlit("null");
    assert("null"@ =~= seq!['n', 'u', 'l', 'l']);
    reveal_with_fuel(rendered_members, 3);
    reveal_with_fuel(rendered_rest, 3);
    reveal_with_fuel(rendered, 2);
    let none = Seq::<(Seq<char>, Json)>::empty();
    let one = seq![(key, value)];
    let last = seq![(other, second)];
    let two = seq![(key, value), (other, second)];
    assert(one.skip(1) =~= none);
    assert(last.skip(1) =~= none);
    assert(two.skip(1) =~= last);
    assert(rendered(Json::Object(none)) =~= seq!['{', '}']);
    assert(rendered(Json::Object(one)) =~= seq!['{'] + rendered(Json::Text(key)) + seq![':']
        + rendered(value) + seq!['}']);
    assert(rendered_members(last) =~= json_text(other) + seq![':'] + rendered(second));
    assert(rendered_rest(last) =~= seq![','] + rendered_members(last));
    assert(two[0] == (key, value));
    assert(rendered_members(two) =~= json_text(key) + seq![':'] + rendered(value) + rendered_rest(
        last,
    ));
    assert(rendered(Json::Object(two)) =~= seq!['{'] + rendered(Json::Text(key)) + seq![':']
        + rendered(value) + seq![','] + rendered(Json::Text(other)) + seq![':'] + rendered(second)
        + seq!['}']);
}

/// The object has this member at this place.
pub open spec fn has_member(object: Json, at: int, key: Seq<char>, value: Json) -> bool {
    object matches Json::Object(members) && 0 <= at < members.len() && members[at] == (key, value)
}

} // verus!
