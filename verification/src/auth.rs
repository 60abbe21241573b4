use vstd::prelude::*;

verus! {

/// The claims carried by an access token: validated and decoded outside
/// the library, then handed around as plain values.
pub struct Claims {
    pub user_id: u64,
    pub username: String,
    pub team_id: u64,
}

impl Clone for Claims {
    fn clone(&self) -> (r: Self)
        ensures
            r == self,
    {
        Claims {
            user_id: self.user_id,
            username: self.username.clone(),
            team_id: self.team_id,
        }
    }
}

} // verus!
