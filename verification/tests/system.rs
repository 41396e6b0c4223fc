use doit::system::{home_directory, slash_terminated};

#[test]
fn home_directory_ends_with_a_slash() {
    match home_directory() {
        Some(home) => {
            assert!(home.ends_with('/'));
            assert!(home.len() >= 1);
        }
        None => {}
    }
}

#[test]
fn home_directory_is_stable() {
    assert_eq!(home_directory(), home_directory());
}

#[test]
fn directory_gets_a_slash_at_its_end() {
    assert_eq!(slash_terminated(Some("/home/me".to_string())), Some("/home/me/".to_string()));
    assert_eq!(slash_terminated(Some("/".to_string())), Some("//".to_string()));
    assert_eq!(slash_terminated(Some(String::new())), Some("/".to_string()));
}

#[test]
fn no_directory_stays_none() {
    assert_eq!(slash_terminated(None), None);
}
