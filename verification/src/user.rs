//! The user resource: identifier, name and email, and the business rule that
//! a user submitted for creation or update must satisfy.

use vstd::prelude::*;

verus! {

/// Mathematical image of a [`User`]: the identifier as it stands (absent
/// before persistence), and the two text fields as character sequences.
pub ghost struct UserView {
    pub id: Option<int>,
    pub name: Seq<char>,
    pub email: Seq<char>,
}

/// A user record as it crosses the wire and the store: an optional
/// identifier (the store assigns one on insert) plus name and email.
pub struct User {
    pub id: Option<i32>,
    pub name: String,
    pub email: String,
}

impl View for User {
    type V = UserView;

    open spec fn view(&self) -> UserView {
        UserView {
            id: match self.id {
                Some(n) => Some(n as int),
                None => None,
            },
            name: self.name@,
            email: self.email@,
        }
    }
}

/// Unicode whitespace (the White_Space set that `char::is_whitespace`
/// names), the characters that surrounding-whitespace trimming discards
/// when testing whether a field is empty, and that delimit the identifier
/// token in a path segment.
pub open spec fn is_space(c: char) -> bool {
    let u = c as int;
    (0x9 <= u && u <= 0xD) || u == 0x20 || u == 0x85 || u == 0xA0 || u == 0x1680 || (0x2000 <= u
        && u <= 0x200A) || u == 0x2028 || u == 0x2029 || u == 0x202F || u == 0x205F || u == 0x3000
}

/// The executable whitespace test.
pub fn is_space_char(c: char) -> (r: bool)
    ensures
        r == is_space(c),
{
    let u = c as u32;
    (9 <= u && u <= 13) || u == 0x20 || u == 0x85 || u == 0xA0 || u == 0x1680 || (0x2000 <= u && u
        <= 0x200A) || u == 0x2028 || u == 0x2029 || u == 0x202F || u == 0x205F || u == 0x3000
}

/// A text field is blank when every character is whitespace, i.e. nothing
/// remains of it after trimming.
pub open spec fn all_space(s: Seq<char>) -> bool {
    forall|i: int| 0 <= i < s.len() ==> is_space(#[trigger] s[i])
}

/// The validation rule applied on create and update: the name must not be
/// blank, and the email must not be blank and must contain an `@`.
pub open spec fn valid_user(u: UserView) -> bool {
    &&& !all_space(u.name)
    &&& !all_space(u.email)
    &&& exists|i: int| 0 <= i < u.email.len() && u.email[i] == '@'
}

impl User {
    /// A persisted user: the identifier is always present.
    pub fn with_id(id: i32, name: String, email: String) -> (u: Self)
        ensures
            u@ == (UserView { id: Some(id as int), name: name@, email: email@ }),
    {
        Self { id: Some(id), name, email }
    }

    /// An identical copy; user values are immutable snapshots passed by
    /// value between layers.
    pub fn duplicate(&self) -> (u: Self)
        ensures
            u@ == self@,
    {
        Self {
            id: self.id,
            name: self.name.clone(),
            email: self.email.clone(),
        }
    }
}

/// Whether any character of `s` is something other than whitespace,
/// i.e. whether the field survives trimming.
fn has_non_space(s: &str) -> (r: bool)
    ensures
        r == !all_space(s@),
{
    let n = s.unicode_len();
    let mut i: usize = 0;
    while i < n
        invariant
            0 <= i <= n,
            n == s@.len(),
            forall|j: int| 0 <= j < i ==> is_space(#[trigger] s@[j]),
        decreases n - i,
    {
        if !is_space_char(s.get_char(i)) {
            return true;
        }
        i += 1;
    }
    false
}

/// Whether `s` contains the character `@`.
fn has_at_sign(s: &str) -> (r: bool)
    ensures
        r == exists|i: int| 0 <= i < s@.len() && s@[i] == '@',
{
    let n = s.unicode_len();
    let mut i: usize = 0;
    while i < n
        invariant
            0 <= i <= n,
            n == s@.len(),
            forall|j: int| 0 <= j < i ==> s@[j] != '@',
        decreases n - i,
    {
        if s.get_char(i) == '@' {
            return true;
        }
        i += 1;
    }
    false
}

/// The executable validation rule: name non-blank, email non-blank and
/// holding an `@`. Applied on create and update, never on read or delete.
pub fn is_valid_user(u: &User) -> (r: bool)
    ensures
        r == valid_user(u@),
{
    has_non_space(u.name.as_str()) && has_non_space(u.email.as_str()) && has_at_sign(
        u.email.as_str(),
    )
}

} // verus!
