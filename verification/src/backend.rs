//! Classifying what came back from the backend: a reply either carries the
//! requested data or is turned into a structured error.

use vstd::prelude::*;

use crate::strutil::{joined, lemma_joined_push};

verus! {

/// What can go wrong between a query and a usable reply.
#[derive(Debug)]
pub enum BackendError {
    /// The HTTP round trip itself failed.
    Transport(String),
    /// The reply could not be decoded as a response document.
    Malformed(String),
    /// The backend answered with a list of errors and no data.
    Backend(Vec<String>),
    /// The queried entity does not exist.
    NotFound,
}

/// Joins error messages with the ` | ` separator the error text carries.
pub fn join_messages(msgs: &Vec<String>) -> (r: String)
    ensures
        r@ == joined(msgs@.map_values(|m: String| m@), " | "@),
{
    let ghost views = msgs@.map_values(|m: String| m@);
    let mut r = String::new();
    let mut i: usize = 0;
    while i < msgs.len()
        invariant
            0 <= i <= msgs.len(),
            views == msgs@.map_values(|m: String| m@),
            r@ == joined(views.take(i as int), " | "@),
        decreases msgs.len() - i,
    {
        if i > 0 {
            r.append(" | ");
        }
        r.append(msgs[i].as_str());
        proof {
            assert(views.take(i + 1) =~= views.take(i as int).push(views[i as int]));
            lemma_joined_push(views.take(i as int), views[i as int], " | "@);
        }
        i = i + 1;
    }
    proof {
        assert(views.take(i as int) =~= views);
    }
    r
}

/// Extracts the data of a reply, or classifies its absence: a reply without a
/// data field becomes a backend error carrying whatever messages it listed.
pub fn response_data<T>(data: Option<T>, errors: Option<Vec<String>>) -> (r: Result<
    T,
    BackendError,
>)
    ensures
        data matches Some(d) ==> r == Result::<T, BackendError>::Ok(d),
        data is None ==> ((errors matches Some(msgs) ==> r == Result::<T, BackendError>::Err(
            BackendError::Backend(msgs),
        )) && (errors is None ==> (r matches Err(e) && e matches BackendError::Backend(msgs)
            && msgs@ =~= Seq::<String>::empty()))),
    {
    match data {
        Some(d) => Ok(d),
        None => {
            match errors {
                Some(msgs) => Err(BackendError::Backend(msgs)),
                None => Err(BackendError::Backend(Vec::new())),
            }
        },
    }
}

impl BackendError {
    /// A readable one-line description of the error.
    pub fn describe(&self) -> (r: String)
        ensures
            self matches BackendError::Transport(m) ==> r@ == "couldn't reach the backend: "@
                + m@,
            self matches BackendError::Malformed(m) ==> r@
                == "couldn't decode the backend response: "@ + m@,
            self matches BackendError::Backend(msgs) ==> r@ == "backend returned errors: "@
                + joined(msgs@.map_values(|m: String| m@), " | "@),
            self matches BackendError::NotFound ==> r@ == "not found"@,
    {
        match self {
            BackendError::Transport(m) => {
                let mut r = String::from_str("couldn't reach the backend: ");
                r.append(m.as_str());
                r
            },
            BackendError::Malformed(m) => {
                let mut r = String::from_str("couldn't decode the backend response: ");
                r.append(m.as_str());
                r
            },
            BackendError::Backend(msgs) => {
                let mut r = String::from_str("backend returned errors: ");
                r.append(join_messages(msgs).as_str());
                r
            },
            BackendError::NotFound => String::from_str("not found"),
        }
    }
}

} // verus!
