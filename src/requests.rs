//! The values that requests carry in and responses carry out, with the
//! checks that a request passes before it reaches the library.

use vstd::prelude::*;
use vstd::std_specs::convert::FromSpecImpl;
use crate::ids::{BookId, UserId};
use crate::model::{Book, CreateBook, CreateUser, Role, UpdateUserPassword, UpdateUserRole, User};

verus! {

/// Whether `garde` accepts `s` as an e-mail address: a user part of allowed
/// characters and at most 64 bytes, an `@`, and a well-formed domain.
pub uninterp spec fn email_accepted(s: Seq<char>) -> bool;

/// Relies on `garde::rules::email::parse_email`: its verdict depends on the
/// text alone, and it refuses an empty text and one without `@`.
#[verifier::external_body]
fn check_email(s: &str) -> (r: bool)
    ensures
        r == email_accepted(s@),
        s@.len() == 0 ==> !r,
        !s@.contains('@') ==> !r,
{
    garde::rules::email::parse_email(s).is_ok()
}

/// A field of a request that failed its check.
#[derive(Clone, Copy, Debug, PartialEq, Eq, Structural)]
pub enum InvalidField {
    Name,
    Email,
    Password,
    CurrentPassword,
    NewPassword,
}

/// The failing fields among `checks`, in order.
pub open spec fn failing(checks: Seq<(bool, InvalidField)>) -> Seq<InvalidField>
    decreases checks.len(),
{
    if checks.len() == 0 {
        Seq::<InvalidField>::empty()
    } else {
        let before = failing(checks.drop_last());
        if checks.last().0 {
            before
        } else {
            before.push(checks.last().1)
        }
    }
}

/// Collects a failing field.
fn note(out: &mut Vec<InvalidField>, ok: bool, field: InvalidField)
    ensures
        final(out)@ == if ok {
            old(out)@
        } else {
            old(out)@.push(field)
        },
{
    if !ok {
        out.push(field);
    }
}

/// The outcome of a request check: `Ok` when no field fails.
pub open spec fn verdict(fails: Seq<InvalidField>) -> Result<(), Seq<InvalidField>> {
    if fails.len() == 0 {
        Ok(())
    } else {
        Err(fails)
    }
}

/// A request to register a book.
pub struct CreateBookRequest {
    pub title: String,
    pub author: String,
    pub isbn: String,
    pub description: String,
}

impl From<CreateBookRequest> for CreateBook {
    fn from(req: CreateBookRequest) -> (r: CreateBook) {
        let CreateBookRequest { title, author, isbn, description } = req;
        CreateBook { title, author, isbn, description }
    }
}

impl FromSpecImpl<CreateBookRequest> for CreateBook {
    open spec fn obeys_from_spec() -> bool {
        true
    }

    open spec fn from_spec(req: CreateBookRequest) -> CreateBook {
        CreateBook {
            title: req.title,
            author: req.author,
            isbn: req.isbn,
            description: req.description,
        }
    }
}

/// A book as a response shows it.
pub struct BookResponse {
    pub id: BookId,
    pub title: String,
    pub author: String,
    pub isbn: String,
    pub description: String,
}

impl From<Book> for BookResponse {
    fn from(book: Book) -> (r: BookResponse) {
        let Book { id, title, author, isbn, description } = book;
        BookResponse { id, title, author, isbn, description }
    }
}

impl FromSpecImpl<Book> for BookResponse {
    open spec fn obeys_from_spec() -> bool {
        true
    }

    open spec fn from_spec(book: Book) -> BookResponse {
        BookResponse {
            id: book.id,
            title: book.title,
            author: book.author,
            isbn: book.isbn,
            description: book.description,
        }
    }
}

/// The name of a role in requests and responses.
#[derive(Clone, Copy, Debug, PartialEq, Eq, Structural)]
pub enum RoleName {
    Admin,
    User,
}

impl From<Role> for RoleName {
    fn from(value: Role) -> (r: RoleName) {
        match value {
            Role::Admin => RoleName::Admin,
            Role::User => RoleName::User,
        }
    }
}

impl FromSpecImpl<Role> for RoleName {
    open spec fn obeys_from_spec() -> bool {
        true
    }

    open spec fn from_spec(value: Role) -> RoleName {
        match value {
            Role::Admin => RoleName::Admin,
            Role::User => RoleName::User,
        }
    }
}

impl From<RoleName> for Role {
    fn from(value: RoleName) -> (r: Role) {
        match value {
            RoleName::Admin => Role::Admin,
            RoleName::User => Role::User,
        }
    }
}

impl FromSpecImpl<RoleName> for Role {
    open spec fn obeys_from_spec() -> bool {
        true
    }

    open spec fn from_spec(value: RoleName) -> Role {
        match value {
            RoleName::Admin => Role::Admin,
            RoleName::User => Role::User,
        }
    }
}

impl RoleName {
    /// The names of all roles, as requests write them.
    pub fn variant_names() -> (r: Vec<String>)
        ensures
            r@.len() == 2,
            r@[0]@ == "admin"@,
            r@[1]@ == "user"@,
    {
        let names = vec!["admin".to_owned(), "user".to_owned()];
        proof {
            reveal_strlit("admin");
            reveal_strlit("user");
        }
        names
    }
}

/// A user account as a response shows it.
pub struct UserResponse {
    pub id: UserId,
    pub name: String,
    pub email: String,
    pub role: RoleName,
}

impl From<User> for UserResponse {
    fn from(value: User) -> (r: UserResponse) {
        let User { id, name, email, role } = value;
        UserResponse { id, name, email, role: RoleName::from(role) }
    }
}

impl FromSpecImpl<User> for UserResponse {
    open spec fn obeys_from_spec() -> bool {
        true
    }

    open spec fn from_spec(value: User) -> UserResponse {
        UserResponse {
            id: value.id,
            name: value.name,
            email: value.email,
            role: match value.role {
                Role::Admin => RoleName::Admin,
                Role::User => RoleName::User,
            },
        }
    }
}

/// A list of user accounts.
pub struct UsersResponse {
    pub items: Vec<UserResponse>,
}

/// A request to change one's password. Both fields must be non-empty.
pub struct UpdateUserPasswordRequest {
    pub current_password: String,
    pub new_password: String,
}

impl UpdateUserPasswordRequest {
    /// The fields that fail their check, in declaration order.
    pub open spec fn failures(&self) -> Seq<InvalidField> {
        failing(
            seq![
                (self.current_password@.len() > 0, InvalidField::CurrentPassword),
                (self.new_password@.len() > 0, InvalidField::NewPassword),
            ],
        )
    }

    /// Checks the request: `Ok` when both passwords are non-empty, else the
    /// failing fields.
    pub fn validate(&self) -> (r: Result<(), Vec<InvalidField>>)
        ensures
            match r {
                Ok(_) => verdict(self.failures()) is Ok,
                Err(v) => verdict(self.failures()) == Err::<(), Seq<InvalidField>>(v@),
            },
    {
        let mut out: Vec<InvalidField> = Vec::new();
        note(&mut out, !self.current_password.as_str().is_empty(), InvalidField::CurrentPassword);
        note(&mut out, !self.new_password.as_str().is_empty(), InvalidField::NewPassword);
        proof {
            let checks = seq![
                (self.current_password@.len() > 0, InvalidField::CurrentPassword),
                (self.new_password@.len() > 0, InvalidField::NewPassword),
            ];
            assert(checks.drop_last().drop_last() =~= Seq::<(bool, InvalidField)>::empty());
            assert(checks.drop_last() =~= seq![checks[0]]);
            reveal_with_fuel(failing, 3);
            assert(failing(checks) =~= out@);
        }
        if out.len() == 0 {
            Ok(())
        } else {
            Err(out)
        }
    }
}

/// A password change together with the user it is for.
pub struct UpdateUserPasswordRequestWithUserId {
    pub user_id: UserId,
    pub request: UpdateUserPasswordRequest,
}

impl UpdateUserPasswordRequestWithUserId {
    pub fn new(user_id: UserId, request: UpdateUserPasswordRequest) -> (r: Self)
        ensures
            r.user_id == user_id,
            r.request == request,
    {
        UpdateUserPasswordRequestWithUserId { user_id, request }
    }
}

impl From<UpdateUserPasswordRequestWithUserId> for UpdateUserPassword {
    fn from(value: UpdateUserPasswordRequestWithUserId) -> (r: UpdateUserPassword) {
        let UpdateUserPasswordRequestWithUserId { user_id, request } = value;
        let UpdateUserPasswordRequest { current_password, new_password } = request;
        UpdateUserPassword { user_id, current_password, new_password }
    }
}

impl FromSpecImpl<UpdateUserPasswordRequestWithUserId> for UpdateUserPassword {
    open spec fn obeys_from_spec() -> bool {
        true
    }

    open spec fn from_spec(value: UpdateUserPasswordRequestWithUserId) -> UpdateUserPassword {
        UpdateUserPassword {
            user_id: value.user_id,
            current_password: value.request.current_password,
            new_password: value.request.new_password,
        }
    }
}

/// A request to create a user account: a non-empty name, an e-mail address
/// that `garde` accepts, and a non-empty password.
pub struct CreaterUserRequest {
    pub name: String,
    pub email: String,
    pub password: String,
}

impl CreaterUserRequest {
    /// The fields that fail their check, in declaration order.
    pub open spec fn failures(&self) -> Seq<InvalidField> {
        failing(
            seq![
                (self.name@.len() > 0, InvalidField::Name),
                (email_accepted(self.email@), InvalidField::Email),
                (self.password@.len() > 0, InvalidField::Password),
            ],
        )
    }

    /// Checks the request: `Ok` when every field passes, else the failing
    /// fields.
    pub fn validate(&self) -> (r: Result<(), Vec<InvalidField>>)
        ensures
            match r {
                Ok(_) => verdict(self.failures()) is Ok,
                Err(v) => verdict(self.failures()) == Err::<(), Seq<InvalidField>>(v@),
            },
    {
        let mut out: Vec<InvalidField> = Vec::new();
        note(&mut out, !self.name.as_str().is_empty(), InvalidField::Name);
        note(&mut out, check_email(self.email.as_str()), InvalidField::Email);
        note(&mut out, !self.password.as_str().is_empty(), InvalidField::Password);
        proof {
            let checks = seq![
                (self.name@.len() > 0, InvalidField::Name),
                (email_accepted(self.email@), InvalidField::Email),
                (self.password@.len() > 0, InvalidField::Password),
            ];
            assert(checks.drop_last().drop_last().drop_last() =~= Seq::<(bool, InvalidField)>::empty());
            assert(checks.drop_last().drop_last() =~= seq![checks[0]]);
            assert(checks.drop_last() =~= seq![checks[0], checks[1]]);
            reveal_with_fuel(failing, 4);
            assert(failing(checks) =~= out@);
        }
        if out.len() == 0 {
            Ok(())
        } else {
            Err(out)
        }
    }
}

impl From<CreaterUserRequest> for CreateUser {
    fn from(value: CreaterUserRequest) -> (r: CreateUser) {
        let CreaterUserRequest { name, email, password } = value;
        CreateUser { name, email, password }
    }
}

impl FromSpecImpl<CreaterUserRequest> for CreateUser {
    open spec fn obeys_from_spec() -> bool {
        true
    }

    open spec fn from_spec(value: CreaterUserRequest) -> CreateUser {
        CreateUser { name: value.name, email: value.email, password: value.password }
    }
}

/// A request to change a user's role.
#[derive(Clone, Copy, Debug, PartialEq, Eq, Structural)]
pub struct UpdateUserRoleRequest {
    pub role: RoleName,
}

/// A role change together with the user it is for.
#[derive(Clone, Copy, Debug, PartialEq, Eq, Structural)]
pub struct UpdateUserRoleRequestWithUserId {
    pub user_id: UserId,
    pub request: UpdateUserRoleRequest,
}

impl UpdateUserRoleRequestWithUserId {
    pub fn new(user_id: UserId, request: UpdateUserRoleRequest) -> (r: Self)
        ensures
            r.user_id == user_id,
            r.request == request,
    {
        UpdateUserRoleRequestWithUserId { user_id, request }
    }
}

impl From<UpdateUserRoleRequestWithUserId> for UpdateUserRole {
    fn from(value: UpdateUserRoleRequestWithUserId) -> (r: UpdateUserRole) {
        UpdateUserRole { user_id: value.user_id, role: Role::from(value.request.role) }
    }
}

impl FromSpecImpl<UpdateUserRoleRequestWithUserId> for UpdateUserRole {
    open spec fn obeys_from_spec() -> bool {
        true
    }

    open spec fn from_spec(value: UpdateUserRoleRequestWithUserId) -> UpdateUserRole {
        UpdateUserRole {
            user_id: value.user_id,
            role: match value.request.role {
                RoleName::Admin => Role::Admin,
                RoleName::User => Role::User,
            },
        }
    }
}

/// The owner of a book, as a response shows it.
pub struct BookOwner {
    pub id: UserId,
    pub name: String,
}

/// The borrower of a book, as a response shows it.
pub struct CheckoutUser {
    pub id: UserId,
    pub name: String,
}

} // verus!
