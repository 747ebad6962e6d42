use doorman::user::{IdentityLookup, User};

#[test]
fn display_name_is_the_first_field_of_the_comment() {
    let user = User::from_pwent(1000, "alice", "Alice Liddell,Room 1,555-1234");
    assert_eq!(
        user,
        User { uid: 1000, username: "alice".to_string(), display_name: "Alice Liddell".to_string() }
    );
}

#[test]
fn display_name_falls_back_to_the_login_name() {
    assert_eq!(User::from_pwent(7, "bob", "").display_name, "bob");
}

#[test]
fn display_name_of_a_comment_without_commas_is_the_comment() {
    assert_eq!(User::from_pwent(7, "bob", "Bob").display_name, "Bob");
}

#[test]
fn display_name_may_be_empty_where_the_comment_starts_with_a_comma() {
    assert_eq!(User::from_pwent(7, "bob", ",Room 2").display_name, "");
}

#[test]
fn sudo_names_the_calling_user_first() {
    assert_eq!(
        User::calling_user(Some("alice".to_string()), Some("bob".to_string())),
        IdentityLookup::ByName("alice".to_string())
    );
}

#[test]
fn doas_names_the_calling_user_without_sudo() {
    assert_eq!(
        User::calling_user(None, Some("bob".to_string())),
        IdentityLookup::ByName("bob".to_string())
    );
}

#[test]
fn the_process_itself_is_the_calling_user_otherwise() {
    assert_eq!(User::calling_user(None, None), IdentityLookup::CurrentUid);
}

#[test]
fn a_user_can_be_copied() {
    let user = User::from_pwent(1, "a", "A");
    assert_eq!(user.clone(), user);
}
