//! The identity under which a queue operation is carried out.

use vstd::prelude::*;

verus! {

/// Who asks for a queue operation: a user, acting through a system (a
/// service instance or a worker).
#[derive(Clone, Debug)]
pub struct Context {
    system_id: String,
    user_id: String,
}

impl Context {
    /// The identifier of the system, as text.
    pub closed spec fn spec_system_id(&self) -> Seq<char> {
        self.system_id@
    }

    /// The identifier of the user, as text.
    pub closed spec fn spec_user_id(&self) -> Seq<char> {
        self.user_id@
    }

    /// A context of the given system and user.
    pub fn new(system_id: String, user_id: String) -> (ctx: Context)
        ensures
            ctx.spec_system_id() == system_id@,
            ctx.spec_user_id() == user_id@,
    {
        Context { system_id, user_id }
    }

    /// The system's identifier.
    pub fn system_id(&self) -> (id: &str)
        ensures
            id@ == self.spec_system_id(),
    {
        self.system_id.as_str()
    }

    /// The user's identifier.
    pub fn user_id(&self) -> (id: &str)
        ensures
            id@ == self.spec_user_id(),
    {
        self.user_id.as_str()
    }
}

} // verus!
