//! A step that waits for a permission.

use vstd::prelude::*;

use crate::domain::Permission;
use crate::error::{AppError, AuthzError, ErrorView};

verus! {

/// Due: authorize the caller for the permission, on no database. What follows
/// is handed out only to a caller who has it.
pub struct Gate<T> {
    pub permission: Permission,
    pub next: T,
}

impl<T> Gate<T> {
    /// Takes the answer of the authorizer.
    pub fn authorized(self, reply: Result<(), AuthzError>) -> (r: Result<T, AppError>)
        ensures
            match reply {
                Err(e) => r matches Err(x) && x@ == ErrorView::Forbidden(e@),
                Ok(_) => r matches Ok(next) && next == self.next,
            },
    {
        match reply {
            Err(e) => Err(AppError::Forbidden(e)),
            Ok(_) => Ok(self.next),
        }
    }
}

/// What waits behind a gate is handed out exactly if the caller is authorized.
pub proof fn gates_open_for_the_authorized<T>(
    gate: Gate<T>,
    reply: Result<(), AuthzError>,
    r: Result<T, AppError>,
)
    requires
        call_ensures(Gate::<T>::authorized, (gate, reply), r),
    ensures
        r is Ok <==> reply is Ok,
        r is Ok ==> r->Ok_0 == gate.next,
        r is Err ==> r->Err_0 is Forbidden && r->Err_0->Forbidden_0@ == reply->Err_0@,
{
}

} // verus!
