use book_ledger::ids::{BookId, UserId};
use book_ledger::model::{
    Book, CreateBook, CreateUser, Role, UpdateUserPassword, UpdateUserRole, User,
};
use book_ledger::requests::{
    BookResponse, CreateBookRequest, CreaterUserRequest, InvalidField, RoleName,
    UpdateUserPasswordRequest, UpdateUserPasswordRequestWithUserId, UpdateUserRoleRequest,
    UpdateUserRoleRequestWithUserId, UserResponse,
};

fn user_request(name: &str, email: &str, password: &str) -> CreaterUserRequest {
    CreaterUserRequest {
        name: name.to_string(),
        email: email.to_string(),
        password: password.to_string(),
    }
}

#[test]
fn create_user_request_accepts_valid_fields() {
    assert_eq!(user_request("Alice", "alice@example.com", "secret").validate(), Ok(()));
}

#[test]
fn create_user_request_reports_each_bad_field() {
    assert_eq!(
        user_request("", "not-an-address", "").validate(),
        Err(vec![InvalidField::Name, InvalidField::Email, InvalidField::Password])
    );
    assert_eq!(
        user_request("Alice", "alice@", "pw").validate(),
        Err(vec![InvalidField::Email])
    );
    assert_eq!(
        user_request("Alice", "", "pw").validate(),
        Err(vec![InvalidField::Email])
    );
}

#[test]
fn password_request_needs_both_fields() {
    let ok = UpdateUserPasswordRequest {
        current_password: "old".to_string(),
        new_password: "new".to_string(),
    };
    assert_eq!(ok.validate(), Ok(()));
    let bad = UpdateUserPasswordRequest {
        current_password: String::new(),
        new_password: "new".to_string(),
    };
    assert_eq!(bad.validate(), Err(vec![InvalidField::CurrentPassword]));
    let both = UpdateUserPasswordRequest {
        current_password: String::new(),
        new_password: String::new(),
    };
    assert_eq!(
        both.validate(),
        Err(vec![InvalidField::CurrentPassword, InvalidField::NewPassword])
    );
}

#[test]
fn requests_convert_to_events() {
    let req = CreateBookRequest {
        title: "T".to_string(),
        author: "A".to_string(),
        isbn: "I".to_string(),
        description: "D".to_string(),
    };
    let event = CreateBook::from(req);
    assert_eq!(event.title, "T");
    assert_eq!(event.author, "A");
    assert_eq!(event.isbn, "I");
    assert_eq!(event.description, "D");

    let user = CreateUser::from(user_request("Bob", "bob@example.com", "pw"));
    assert_eq!(user.name, "Bob");
    assert_eq!(user.email, "bob@example.com");
    assert_eq!(user.password, "pw");

    let pw = UpdateUserPassword::from(UpdateUserPasswordRequestWithUserId::new(
        UserId { value: 4 },
        UpdateUserPasswordRequest {
            current_password: "old".to_string(),
            new_password: "new".to_string(),
        },
    ));
    assert_eq!(pw.user_id, UserId { value: 4 });
    assert_eq!(pw.current_password, "old");
    assert_eq!(pw.new_password, "new");

    let role = UpdateUserRole::from(UpdateUserRoleRequestWithUserId::new(
        UserId { value: 5 },
        UpdateUserRoleRequest { role: RoleName::Admin },
    ));
    assert_eq!(role, UpdateUserRole { user_id: UserId { value: 5 }, role: Role::Admin });
}

#[test]
fn roles_convert_both_ways() {
    assert_eq!(RoleName::from(Role::Admin), RoleName::Admin);
    assert_eq!(RoleName::from(Role::User), RoleName::User);
    assert_eq!(Role::from(RoleName::Admin), Role::Admin);
    assert_eq!(Role::from(RoleName::User), Role::User);
    assert_eq!(RoleName::variant_names(), vec!["admin".to_string(), "user".to_string()]);
}

#[test]
fn responses_copy_their_sources() {
    let book = Book {
        id: BookId { value: 9 },
        title: "T".to_string(),
        author: "A".to_string(),
        isbn: "I".to_string(),
        description: "D".to_string(),
    };
    let resp = BookResponse::from(book);
    assert_eq!(resp.id, BookId { value: 9 });
    assert_eq!(resp.title, "T");
    let user = User {
        id: UserId { value: 1 },
        name: "Alice".to_string(),
        email: "alice@example.com".to_string(),
        role: Role::User,
    };
    let resp = UserResponse::from(user);
    assert_eq!(resp.role, RoleName::User);
    assert_eq!(resp.name, "Alice");
}
