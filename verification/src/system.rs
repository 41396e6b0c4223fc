//! What the library asks of the operating system: the current user's home
//! directory and the home directories of named users.

use users::os::unix::UserExt;
use vstd::prelude::*;

verus! {

/// An entry of the system's user database, as the `users` crate hands it
/// out.
#[verifier::external_type_specification]
#[verifier::external_body]
pub struct ExUser(users::User);

/// Asks `users::get_user_by_name` for the user `name`. Nothing is claimed of
/// the answer: it depends on the system's user database at the time of the
/// call.
#[verifier::external_body]
pub(crate) fn find_user(name: &str) -> (user: Option<users::User>) {
    users::get_user_by_name(name)
}

/// The home directory of `user`, which its `home_dir` gives as a path, as
/// text. Nothing is claimed of the text.
#[verifier::external_body]
pub(crate) fn home_of(user: &users::User) -> (home: String) {
    user.home_dir().display().to_string()
}

/// Asks `dirs::home_dir` for the current user's home directory and hands it
/// back as text, or `None` where there is none or it is not valid Unicode.
/// Nothing is claimed of the answer: it depends on the environment.
#[verifier::external_body]
pub(crate) fn lookup_home_dir() -> (home: Option<String>) {
    dirs::home_dir().and_then(|path| path.to_str().map(|text| text.to_string()))
}

/// The current user's home directory with a slash at its end, as templates
/// insert it for `~/`; `None` where the system knows of none.
pub fn home_directory() -> (home: Option<String>)
    ensures
        home matches Some(h) ==> h@.len() > 0 && h@.last() == '/',
{
    slash_terminated(lookup_home_dir())
}

/// The directory `found` with a slash at its end; nothing where there is no
/// directory.
pub open spec fn slash_terminated_spec(found: Option<Seq<char>>) -> Option<Seq<char>> {
    match found {
        Some(dir) => Some(dir.push('/')),
        None => None,
    }
}

/// What the answer `found` of the system makes of the home directory: the
/// directory with a slash at its end, as templates insert it for `~/`, and
/// nothing where the system knows of no directory.
pub fn slash_terminated(found: Option<String>) -> (home: Option<String>)
    ensures
        match found {
            Some(dir) => home matches Some(h) && h@ == dir@.push('/'),
            None => home is None,
        },
{
    match found {
        Some(mut dir) => {
            dir.push('/');
            Some(dir)
        },
        None => None,
    }
}

} // verus!
