//! What a call is answered.

use vstd::prelude::*;

use crate::json::{entry_models, valid, Json, JsonModel};

verus! {

/// The answer to a call.
#[derive(Debug, PartialEq)]
pub enum Response {
    /// The call succeeded: the fields of the answer.
    Success(Vec<(String, Json)>),
    /// The call failed: a code for programs and a message for people.
    Failure { code: String, message: String },
    /// A document, as it is.
    Raw(String),
}

/// What a [`Response`] holds.
#[verifier::ext_equal]
pub enum ResponseModel {
    Success(Seq<(Seq<char>, JsonModel)>),
    Failure { code: Seq<char>, message: Seq<char> },
    Raw(Seq<char>),
}

/// The fields of a success make a valid object.
pub open spec fn well_formed(response: ResponseModel) -> bool {
    response matches ResponseModel::Success(fields) ==> valid(JsonModel::Object(fields))
}

impl View for Response {
    type V = ResponseModel;

    open spec fn view(&self) -> ResponseModel {
        match self {
            Response::Success(fields) => ResponseModel::Success(entry_models(fields@)),
            Response::Failure { code, message } => ResponseModel::Failure {
                code: code@,
                message: message@,
            },
            Response::Raw(text) => ResponseModel::Raw(text@),
        }
    }
}

impl Response {
    /// A failure.
    pub fn error(code: &str, message: &str) -> (response: Response)
        ensures
            response@ == (ResponseModel::Failure { code: code@, message: message@ }),
    {
        Response::Failure { code: code.to_string(), message: message.to_string() }
    }
}

/// The answer where the state of the connections was lost to a panic.
pub open spec fn poisoned() -> ResponseModel {
    ResponseModel::Failure {
        code: "connector.statePoisoned"@,
        message: "Connector connection state is poisoned."@,
    }
}

/// The answer where the state of the connections was lost to a panic.
pub fn state_poisoned() -> (response: Response)
    ensures
        response@ == poisoned(),
{
    Response::error("connector.statePoisoned", "Connector connection state is poisoned.")
}

} // verus!
