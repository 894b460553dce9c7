//! Answers of the read-only query surfaces: which reply a query result becomes.
use vstd::prelude::*;

use crate::errors::{error_message, BlueprintError, BlueprintResult, ErrorView};

verus! {

/// The reply of a query endpoint.
#[derive(Debug)]
pub enum QueryReply<T> {
    /// The value asked for.
    Found(T),
    /// The VM asked about does not exist; carries the message.
    NotFound(String),
    /// The query failed; carries the message.
    Failed(String),
}

/// The HTTP status code of a reply.
pub open spec fn reply_status<T>(r: QueryReply<T>) -> u16 {
    match r {
        QueryReply::Found(_) => 200,
        QueryReply::NotFound(_) => 404,
        QueryReply::Failed(_) => 500,
    }
}

impl<T> QueryReply<T> {
    /// The HTTP status code of this reply.
    pub fn status_code(&self) -> (c: u16)
        ensures
            c == reply_status(*self),
    {
        match self {
            QueryReply::Found(_) => 200,
            QueryReply::NotFound(_) => 404,
            QueryReply::Failed(_) => 500,
        }
    }
}

/// The reply to a query over all VMs.
pub fn list_reply<T>(result: BlueprintResult<T>) -> (r: QueryReply<T>)
    ensures
        result matches Ok(v) ==> r == QueryReply::<T>::Found(v),
        result matches Err(e) ==> r matches QueryReply::Failed(m) && m@ == error_message(e@),
{
    match result {
        Ok(v) => QueryReply::Found(v),
        Err(e) => QueryReply::Failed(e.message()),
    }
}

/// The reply to a query about the VM `vm_id`.
pub fn vm_reply<T>(vm_id: &str, result: BlueprintResult<Option<T>>) -> (r: QueryReply<T>)
    ensures
        result matches Ok(Some(v)) ==> r == QueryReply::<T>::Found(v),
        result matches Ok(None) ==> r matches QueryReply::NotFound(m) && m@ == error_message(
            ErrorView::VmNotFound(vm_id@),
        ),
        result matches Err(e) ==> r matches QueryReply::Failed(m) && m@ == error_message(e@),
{
    match result {
        Ok(Some(v)) => QueryReply::Found(v),
        Ok(None) => QueryReply::NotFound(BlueprintError::VmNotFound(vm_id.to_owned()).message()),
        Err(e) => QueryReply::Failed(e.message()),
    }
}

} // verus!
