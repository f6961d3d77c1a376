//! Request and response shapes for asking a user actor to retry the messages
//! to one recipient that previously failed to send.

use vstd::prelude::*;
use crate::types::UserId;

verus! {

pub struct Args {
    pub recipient: UserId,
}

pub enum Response {
    Success,
}

} // verus!
