//! The user record, its mathematical model, and the synthetic sample users.

use vstd::prelude::*;

verus! {

/// What a user record means: its id and the characters of its name and email.
pub ghost struct UserModel {
    pub id: u32,
    pub name: Seq<char>,
    pub email: Seq<char>,
}

/// A flat user record; `id` is assigned by the store.
#[derive(Debug, Clone, PartialEq, Eq)]
pub struct User {
    pub id: u32,
    pub name: String,
    pub email: String,
}

impl View for User {
    type V = UserModel;

    open spec fn view(&self) -> UserModel {
        UserModel { id: self.id, name: self.name@, email: self.email@ }
    }
}

/// The models of a sequence of records, in order.
pub open spec fn models(v: Seq<User>) -> Seq<UserModel> {
    v.map_values(|u: User| u@)
}

/// The body of a create or update request.
#[derive(Debug, Clone, PartialEq, Eq)]
pub struct UserRequest {
    pub name: String,
    pub email: String,
}

impl User {
    /// A record with the given id and the request's name and email.
    pub fn from_request(id: u32, req: UserRequest) -> (r: User)
        ensures
            r@ == (UserModel { id, name: req.name@, email: req.email@ }),
    {
        User { id, name: req.name, email: req.email }
    }

    /// A field-by-field copy, with its model kept.
    pub fn duplicate(&self) -> (r: User)
        ensures
            r@ == self@,
    {
        User { id: self.id, name: self.name.clone(), email: self.email.clone() }
    }
}

/// The decimal digit `d` (below ten) as a character.
pub open spec fn digit_char(d: nat) -> char {
    seq!['0', '1', '2', '3', '4', '5', '6', '7', '8', '9'][d as int]
}

/// The decimal notation of `n`, without sign or leading zeros.
pub open spec fn decimal(n: nat) -> Seq<char>
    decreases n,
{
    if n < 10 {
        seq![digit_char(n)]
    } else {
        decimal(n / 10).push(digit_char(n % 10))
    }
}

/// Relies on `ToString` for `u32` (its `Display`): plain decimal digits.
#[verifier::external_body]
fn decimal_string(n: u32) -> (r: String)
    ensures
        r@ == decimal(n as nat),
{
    n.to_string()
}

/// The `i`-th synthetic user: `User i`, `useri@example.com`.
pub open spec fn sample_user(i: u32) -> UserModel {
    UserModel {
        id: i,
        name: "User "@ + decimal(i as nat),
        email: "user"@ + decimal(i as nat) + "@example.com"@,
    }
}

/// Builds the `i`-th synthetic user.
pub fn make_sample_user(i: u32) -> (r: User)
    ensures
        r@ == sample_user(i),
{
    let digits = decimal_string(i);
    let mut name = String::from_str("User ");
    name.append(digits.as_str());
    let mut email = String::from_str("user");
    email.append(digits.as_str());
    email.append("@example.com");
    User { id: i, name, email }
}

} // verus!
