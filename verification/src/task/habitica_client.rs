//! The client: one request for all tasks of a user, and its outcome.

use super::json::{json_of, Json};
use super::rest_client::{RestClientError, RestOperations};
use super::schema::{tasks_of, DecodeError, TaskView};
use super::tasks::Tasks;
use serde_json::Value;
use vstd::prelude::*;

verus! {

/// Why no tasks came back.
#[derive(Debug)]
pub enum ClientError {
    /// The transport failed; no reply was decoded.
    Transport(RestClientError),
    /// The reply was rejected.
    Decode(DecodeError),
}

/// The address of the tasks of a user.
pub open spec fn tasks_url() -> Seq<char> {
    "https://habitica.com/api/v3/tasks/user"@
}

/// A client for the tasks of one user, over a transport.
pub struct HabiticaClient {
    rest_client: Box<dyn RestOperations>,
    url: &'static str,
}

/// What the outcome of a request is taken for: a failure of the transport
/// is handed on, and a reply is decoded as a whole.
pub fn tasks_from_response(response: Result<Value, RestClientError>) -> (outcome: Result<
    Tasks,
    ClientError,
>)
    ensures
        match response {
            Ok(reply) => match tasks_of(json_of(reply)) {
                Ok(tasks) => outcome matches Ok(decoded) && decoded@ == tasks,
                Err(error) => outcome matches Err(ClientError::Decode(cause)) && cause == error,
            },
            Err(failure) => outcome matches Err(ClientError::Transport(cause)) && cause@
                == failure@,
        },
{
    match response {
        Ok(reply) => match Tasks::new(reply) {
            Ok(tasks) => Ok(tasks),
            Err(error) => Err(ClientError::Decode(error)),
        },
        Err(failure) => Err(ClientError::Transport(failure)),
    }
}

impl HabiticaClient {
    /// The address that the client asks.
    pub closed spec fn url(&self) -> Seq<char> {
        self.url@
    }

    /// A client that asks `rest_client` for the tasks of the user.
    pub fn new(rest_client: Box<dyn RestOperations>) -> (client: HabiticaClient)
        ensures
            client.url() == tasks_url(),
    {
        HabiticaClient { rest_client, url: "https://habitica.com/api/v3/tasks/user" }
    }

    /// All tasks of the user: habits, dailies and to-dos. The transport is
    /// asked once, and what it hands back is taken as `tasks_from_response`
    /// says: tasks come back only as the whole of what some reply holds.
    pub fn get_all_tasks(&self) -> (outcome: Result<Tasks, ClientError>)
        ensures
            match outcome {
                Ok(tasks) => exists|reply: Json|
                    tasks_of(reply) == Ok::<Seq<TaskView>, DecodeError>(tasks@),
                Err(ClientError::Decode(error)) => exists|reply: Json|
                    tasks_of(reply) == Err::<Seq<TaskView>, DecodeError>(error),
                Err(ClientError::Transport(_)) => true,
            },
    {
        let response = self.rest_client.get(self.url);
        tasks_from_response(response)
    }
}

} // verus!
