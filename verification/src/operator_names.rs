//! Identities that operators give to Lima instances and verification profiles.
use vstd::prelude::*;

use crate::text;

verus! {

pub const MAX_OPERATOR_NAME_CHARS: usize = 128;

pub open spec fn is_name_start(c: char) -> bool {
    'a' <= c <= 'z' || 'A' <= c <= 'Z' || '0' <= c <= '9'
}

pub open spec fn is_name_char(c: char) -> bool {
    is_name_start(c) || c == '-' || c == '_' || c == '.'
}

/// A bounded name of letters, digits, hyphens, underscores and dots that starts
/// with a letter or a digit.
pub open spec fn is_operator_name(name: Seq<char>) -> bool {
    &&& 0 < name.len() <= MAX_OPERATOR_NAME_CHARS
    &&& is_name_start(name[0])
    &&& forall|i: int| 0 <= i < name.len() ==> is_name_char(#[trigger] name[i])
}

#[derive(Debug, Clone, Copy, PartialEq, Eq, Structural)]
pub enum OperatorNameError {
    Invalid,
}

fn name_start(c: char) -> (r: bool)
    ensures
        r == is_name_start(c),
{
    ('a' <= c && c <= 'z') || ('A' <= c && c <= 'Z') || ('0' <= c && c <= '9')
}

fn operator_name(name: &str) -> (r: bool)
    ensures
        r == is_operator_name(name@),
{
    let chars = text::chars_of(name);
    if chars.len() == 0 || chars.len() > MAX_OPERATOR_NAME_CHARS || !name_start(chars[0]) {
        return false;
    }
    let mut i: usize = 0;
    while i < chars.len()
        invariant
            i <= chars@.len(),
            chars@ == name@,
            forall|k: int| 0 <= k < i ==> is_name_char(#[trigger] chars@[k]),
        decreases chars@.len() - i,
    {
        let c = chars[i];
        if !name_start(c) && c != '-' && c != '_' && c != '.' {
            assert(!is_name_char(name@[i as int]));
            return false;
        }
        i += 1;
    }
    true
}

/// The name of a Lima instance.
#[derive(Debug, PartialEq, Eq)]
pub struct LimaInstanceName(String);

impl LimaInstanceName {
    #[verifier::type_invariant]
    spec fn is_valid(self) -> bool {
        is_operator_name(self.0@)
    }

    pub fn parse(value: &str) -> (r: Result<Self, OperatorNameError>)
        ensures
            match r {
                Ok(name) => is_operator_name(value@) && name@ == value@,
                Err(_) => !is_operator_name(value@),
            },
    {
        if operator_name(value) {
            Ok(LimaInstanceName(value.to_owned()))
        } else {
            Err(OperatorNameError::Invalid)
        }
    }

    pub fn as_str(&self) -> (value: &str)
        ensures
            value@ == self@,
            is_operator_name(value@),
    {
        proof {
            use_type_invariant(self);
        }
        self.0.as_str()
    }
}

impl View for LimaInstanceName {
    type V = Seq<char>;

    closed spec fn view(&self) -> Seq<char> {
        self.0@
    }
}

impl Clone for LimaInstanceName {
    fn clone(&self) -> (copy: Self)
        ensures
            copy@ == self@,
    {
        proof {
            use_type_invariant(self);
        }
        LimaInstanceName(self.0.clone())
    }
}

/// The name of a verification profile.
#[derive(Debug, PartialEq, Eq)]
pub struct VerificationProfileId(String);

impl VerificationProfileId {
    #[verifier::type_invariant]
    spec fn is_valid(self) -> bool {
        is_operator_name(self.0@)
    }

    pub fn parse(value: &str) -> (r: Result<Self, OperatorNameError>)
        ensures
            match r {
                Ok(name) => is_operator_name(value@) && name@ == value@,
                Err(_) => !is_operator_name(value@),
            },
    {
        if operator_name(value) {
            Ok(VerificationProfileId(value.to_owned()))
        } else {
            Err(OperatorNameError::Invalid)
        }
    }

    pub fn as_str(&self) -> (value: &str)
        ensures
            value@ == self@,
            is_operator_name(value@),
    {
        proof {
            use_type_invariant(self);
        }
        self.0.as_str()
    }
}

impl View for VerificationProfileId {
    type V = Seq<char>;

    closed spec fn view(&self) -> Seq<char> {
        self.0@
    }
}

impl Clone for VerificationProfileId {
    fn clone(&self) -> (copy: Self)
        ensures
            copy@ == self@,
    {
        proof {
            use_type_invariant(self);
        }
        VerificationProfileId(self.0.clone())
    }
}

/// An operator's name is short and plain: it starts with a letter or a digit,
/// holds nothing but letters, digits, hyphens, underscores and dots, and has at
/// most 128 of them. So do its beginnings, and two names joined by a hyphen.
pub proof fn law_names_are_short_and_plain(name: Seq<char>, other: Seq<char>, n: int)
    ensures
        is_operator_name(name) <==> {
            &&& 1 <= name.len() <= 128
            &&& forall|i: int|
                0 <= i < name.len() ==> {
                    let c = (#[trigger] name[i]) as int;
                    48 <= c <= 57 || 65 <= c <= 90 || 97 <= c <= 122 || (i > 0 && (c == 45 || c
                        == 46 || c == 95))
                }
        },
        is_operator_name(name) && 0 < n <= name.len() ==> is_operator_name(name.take(n)),
        is_operator_name(name) && is_operator_name(other) && name.len() + other.len() < 128
            ==> is_operator_name(name + seq!['-'] + other),
{
    if is_operator_name(name) {
        assert forall|i: int| 0 <= i < name.len() implies {
            let c = (#[trigger] name[i]) as int;
            48 <= c <= 57 || 65 <= c <= 90 || 97 <= c <= 122 || (i > 0 && (c == 45 || c == 46 || c
                == 95))
        } by {
            assert(is_name_char(name[i]));
        }
    }
    if name.len() > 0 && (forall|i: int|
        0 <= i < name.len() ==> {
            let c = (#[trigger] name[i]) as int;
            48 <= c <= 57 || 65 <= c <= 90 || 97 <= c <= 122 || (i > 0 && (c == 45 || c == 46 || c
                == 95))
        }) {
        assert(is_name_start(name[0]));
        assert forall|i: int| 0 <= i < name.len() implies is_name_char(#[trigger] name[i]) by {}
    }
    if is_operator_name(name) && is_operator_name(other) && name.len() + other.len() < 128 {
        let joined = name + seq!['-'] + other;
        assert forall|i: int| 0 <= i < joined.len() implies is_name_char(#[trigger] joined[i]) by {
            if i < name.len() {
                assert(joined[i] == name[i]);
            } else if i > name.len() {
                assert(joined[i] == other[i - name.len() - 1]);
            }
        }
        assert(joined[0] == name[0]);
    }
}

} // verus!
