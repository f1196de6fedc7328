//! The one request to the REST interface: an account's profile.

use vstd::prelude::*;
use vstd::string::*;

verus! {

/// The address under which the profile of the account `user_id` is found.
pub open spec fn profile_address(user_id: Seq<char>) -> Seq<char> {
    "https://discord.com/api/v9/users/"@ + user_id
        + "/profile?with_mutual_guilds=false&with_mutual_friends=false&with_mutual_friends_count=false"@
}

/// Builds the address to ask for an account's profile.
pub fn profile_url(user_id: &str) -> (url: String)
    ensures
        url@ == profile_address(user_id@),
{
    let mut url = "https://discord.com/api/v9/users/".to_owned();
    url.append(user_id);
    url.append(
        "/profile?with_mutual_guilds=false&with_mutual_friends=false&with_mutual_friends_count=false",
    );
    url
}

} // verus!
