//! What calls are answered.

use vstd::prelude::*;

use crate::config::{config_asked, redacted, ConfigModel};
use crate::connections::ConnectionModel;
use crate::driver::{
    call_of, close_answer, connect_failed, invalid_request, metadata_answer, query_answer,
    unknown_method, works_on_request, CallModel, ConnectorModel,
};
use crate::json::JsonModel;
use crate::laws::redaction::{apart, law_secrets_never_shown};
use crate::response::ResponseModel;
use crate::text::occurs;

verus! {

/// `ping` is `health`, and `capabilities` is `describe`, by another name.
pub proof fn law_methods_have_two_names(connector: ConnectorModel, request: Option<JsonModel>)
    ensures
        call_of(connector, "ping"@, request) == call_of(connector, "health"@, request),
        call_of(connector, "capabilities"@, request) == call_of(connector, "describe"@, request),
{
    reveal_strlit("ping");
    reveal_strlit("health");
    reveal_strlit("capabilities");
    reveal_strlit("describe");
    assert("ping"@.len() == 4 && "health"@.len() == 6);
    assert("describe"@.len() == 8 && "capabilities"@.len() == 12);
}

/// The methods that there are.
pub open spec fn known_method(method: Seq<char>) -> bool {
    ||| works_on_request(method)
    ||| method == "health"@
    ||| method == "ping"@
    ||| method == "describe"@
    ||| method == "capabilities"@
    ||| method == "manifest"@
    ||| method == "config"@
}

/// A method is refused exactly where there is none of its name, with a message that names it.
pub proof fn law_unknown_methods_are_refused(
    connector: ConnectorModel,
    method: Seq<char>,
    request: Option<JsonModel>,
)
    ensures
        !known_method(method) ==> call_of(connector, method, request) == CallModel::Reply(
            unknown_method(method),
        ),
        known_method(method) ==> !(call_of(connector, method, request) matches CallModel::Reply(
            ResponseModel::Failure { .. },
        )),
{
}

/// A failure of a call on a connection, and of making one, shows none of the values that messages
/// must not show.
pub proof fn law_failures_show_no_secret(
    id: Seq<char>,
    config: ConfigModel,
    err: Seq<char>,
    secret: Seq<char>,
)
    requires
        config.redaction_values.contains(secret),
        apart(secret, "****"@),
    ensures
        query_answer(id, config, Err(err)) matches ResponseModel::Failure { code, message }
            && !occurs(message, secret),
        metadata_answer(id, config, Err(err)) matches ResponseModel::Failure { code, message }
            && !occurs(message, secret),
        connect_failed(config, err) matches ResponseModel::Failure { code, message } && !occurs(
            message,
            secret,
        ),
        invalid_request(redacted(config, err)) matches ResponseModel::Failure { code, message }
            && !occurs(message, secret),
{
    law_secrets_never_shown(config, err, secret);
}

/// A request is refused for its URL or for its query language, with a message that shows nothing
/// of the request.
pub proof fn law_refusals_are_fixed(request: JsonModel)
    ensures
        config_asked(request) matches Err(message) ==> message == "InfluxDB URL is empty."@
            || message == "this native InfluxDB driver currently supports SQL queryType only."@,
{
}

/// A connection that was opened is found under its name, the others as before; once closed it is
/// found no more, and to close it again answers that none was open.
pub proof fn law_connections_open_and_close(
    connections: Map<Seq<char>, ConnectionModel>,
    id: Seq<char>,
    other: Seq<char>,
    connection: ConnectionModel,
)
    requires
        other != id,
    ensures
        connections.insert(id, connection).contains_key(id),
        connections.insert(id, connection)[id] == connection,
        connections.insert(id, connection).contains_key(other) == connections.contains_key(other),
        connections.contains_key(other) ==> connections.insert(id, connection)[other]
            == connections[other],
        !connections.remove(id).contains_key(id),
        connections.remove(id).contains_key(other) == connections.contains_key(other),
        connections.contains_key(other) ==> connections.remove(id)[other] == connections[other],
        connections.remove(id).remove(id) == connections.remove(id),
        close_answer(id, connections.insert(id, connection).contains_key(id)) == close_answer(
            id,
            true,
        ),
        close_answer(id, connections.remove(id).contains_key(id)) == close_answer(id, false),
{
    assert(connections.remove(id).remove(id) =~= connections.remove(id));
}

} // verus!
