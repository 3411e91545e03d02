//! The course of the calls that reach a server: what is done, what may come of it, and what is
//! done or answered next.

use vstd::prelude::*;

use crate::config::{config_asked, redacted, ConfigModel, InfluxConfig};
use crate::connections::{not_found, Connections, InfluxConnection};
use crate::driver::{
    connect, connect_answer, connect_client, connect_failed, connect_greeted, connected,
    invalid_request, metadata, metadata_answer, query, query_answer, query_statement,
    statement_given, Connector,
};
use crate::exchange::{
    answer, answer_result, greeting, load_metadata, metadata_given, metadata_query, outcome_valid,
    ping_outcome, ping_unsent, query_document, query_outcome, query_payload, query_unread,
    query_unsent, METADATA_ROWS,
};
use crate::json::{valid, Json};
use crate::response::{well_formed, Response, ResponseModel};
use crate::rows::{OutputModel, QueryOutput};
use crate::text::{opt_str, opt_string};
use crate::tls::{
    client_plan, error_message, setup_failure, ClientPlan, ClientStep, PemFile, PemFiles,
};

verus! {

/// A connection that is being made: its client is still to be built.
pub struct Opening {
    pub connection_id: String,
    pub config: InfluxConfig,
    /// What has come of the PEM files so far.
    pub files: PemFiles,
}

/// What comes after a look at the PEM files.
pub enum OpeningStep {
    /// A file is to be read: take note of what comes of it with [`PemFiles::record`].
    Read { opening: Opening, file: PemFile, path: String },
    /// The client is there: the server is to be greeted.
    Greet(Greeting),
    /// There is no client.
    Refused(Response),
}

/// A connection that is being made: its server is to be greeted.
pub struct Greeting {
    pub connection_id: String,
    pub connection: InfluxConnection,
}

/// A connection that is being made: its server has answered, it is to be entered.
pub struct Admitted {
    pub connection_id: String,
    pub connection: InfluxConnection,
    pub version: Option<String>,
}

impl Opening {
    /// What the configuration and the files read so far call for.
    pub open spec fn plan(self) -> ClientPlan {
        client_plan(
            self.config@.tls,
            self.files.root_cert@,
            self.files.client_cert@,
            self.files.client_key@,
        )
    }

    /// Starts to make the connection that a request asks for.
    pub fn begin(connection_id: String, request: &Json) -> (opening: Result<Opening, Response>)
        ensures
            match config_asked(request@) {
                Ok(model) => opening matches Ok(o) && o.connection_id@ == connection_id@
                    && o.config@ == model && o.files.root_cert@ is Unread
                    && o.files.client_cert@ is Unread && o.files.client_key@ is Unread,
                Err(message) => opening matches Err(r) && r@ == invalid_request(message),
            },
    {
        match connect(request) {
            Ok(config) => Ok(Opening { connection_id, config, files: PemFiles::unread() }),
            Err(response) => Err(response),
        }
    }

    /// Goes on with the files read so far.
    pub fn advance(self) -> (step: OpeningStep)
        ensures
            match self.plan() {
                ClientPlan::Read(file, path) => step matches OpeningStep::Read {
                    opening: o,
                    file: f,
                    path: p,
                } && o == self && f == file && p@ == path,
                ClientPlan::Fail(message) => step matches OpeningStep::Refused(r) && r@
                    == invalid_request(redacted(self.config@, message)),
                ClientPlan::Build(settings) => match step {
                    OpeningStep::Greet(g) => g.connection_id@ == self.connection_id@
                        && g.connection@.config == self.config@ && crate::tls::client_settings(
                        g.connection@.client,
                    ) == settings,
                    OpeningStep::Refused(r) => exists|err: reqwest::Error|
                        r@ == invalid_request(
                            redacted(
                                self.config@,
                                setup_failure(self.config@.tls) + #[trigger] error_message(err),
                            ),
                        ),
                    _ => false,
                },
            },
    {
        match self.config.tls.build_client(&self.files) {
            ClientStep::Read { file, path } => OpeningStep::Read { opening: self, file, path },
            ClientStep::Done(client) => match connect_client(self.config, client) {
                Ok(connection) => OpeningStep::Greet(
                    Greeting { connection_id: self.connection_id, connection },
                ),
                Err(response) => OpeningStep::Refused(response),
            },
        }
    }
}

impl Greeting {
    /// The answer where nothing could be sent at all.
    pub fn no_runtime(self, err: String) -> (response: Response)
        ensures
            response@ == connect_failed(self.connection@.config, err@),
    {
        let message = self.connection.config.redact(err.as_str());
        Response::error("connector.connectFailed", message.as_str())
    }

    /// The answer where the greeting was not sent or not answered.
    pub fn unsent(self, err: &str) -> (response: Response)
        ensures
            response@ == connect_failed(
                self.connection@.config,
                "InfluxDB ping failed: "@ + err@,
            ),
    {
        self.no_runtime(ping_unsent(err))
    }

    /// Goes on with the server's answer: its status, its body where it refused, and the version
    /// that it names.
    pub fn answered(self, code: u16, status: &str, body: &str, version: Option<&str>) -> (admitted:
        Result<Admitted, Response>)
        ensures
            match greeting(code, status@, body@, opt_str(version)) {
                Ok(named) => admitted matches Ok(a) && a.connection_id@ == self.connection_id@
                    && a.connection == self.connection && opt_string(a.version) == named,
                Err(err) => admitted matches Err(r) && r@ == connect_failed(
                    self.connection@.config,
                    err,
                ),
            },
    {
        match connect_greeted(&self.connection, ping_outcome(code, status, body, version)) {
            Ok(version) => Ok(
                Admitted {
                    connection_id: self.connection_id,
                    connection: self.connection,
                    version,
                },
            ),
            Err(response) => Err(response),
        }
    }
}

impl Admitted {
    /// Enters the connection under its name, and answers.
    pub fn enter(self, connections: &mut Connections, connector: &Connector) -> (response: Response)
        requires
            old(connections).wf(),
        ensures
            final(connections).wf(),
            final(connections)@ == old(connections)@.insert(
                self.connection_id@,
                self.connection@,
            ),
            response@ == connect_answer(
                connector@,
                self.connection_id@,
                self.connection@.config,
                opt_string(self.version),
            ),
            well_formed(response@),
    {
        connected(connections, connector, self.connection_id, self.connection, self.version)
    }
}

/// What a server is asked for.
pub enum Purpose {
    /// The rows of a statement, at most `cap`.
    Query { sql: String, cap: usize },
    /// The description of the database.
    Metadata,
}

/// What a [`Purpose`] holds.
#[verifier::ext_equal]
pub enum PurposeModel {
    Query { sql: Seq<char>, cap: nat },
    Metadata,
}

impl View for Purpose {
    type V = PurposeModel;

    open spec fn view(&self) -> PurposeModel {
        match self {
            Purpose::Query { sql, cap } => PurposeModel::Query { sql: sql@, cap: *cap as nat },
            Purpose::Metadata => PurposeModel::Metadata,
        }
    }
}

/// The statement that is sent.
pub open spec fn statement_sent(purpose: PurposeModel) -> Seq<char> {
    match purpose {
        PurposeModel::Query { sql, cap } => sql,
        PurposeModel::Metadata =>
            "SELECT table_name, column_name, data_type FROM information_schema.columns WHERE table_schema = 'public' ORDER BY table_name, ordinal_position"@,
    }
}

/// How many rows are taken of the answer.
pub open spec fn rows_taken(purpose: PurposeModel) -> nat {
    match purpose {
        PurposeModel::Query { sql, cap } => cap,
        PurposeModel::Metadata => METADATA_ROWS as nat,
    }
}

/// What is answered, given the outcome of the statement. A description of a database that could
/// not be had is one without tables.
pub open spec fn reply(
    id: Seq<char>,
    config: ConfigModel,
    purpose: PurposeModel,
    outcome: Result<OutputModel, Seq<char>>,
) -> ResponseModel {
    match purpose {
        PurposeModel::Query { sql, cap } => query_answer(id, config, outcome),
        PurposeModel::Metadata => metadata_answer(
            id,
            config,
            Ok(metadata_given(config.database, outcome)),
        ),
    }
}

/// What is answered where nothing could be sent at all.
pub open spec fn reply_without_runtime(
    id: Seq<char>,
    config: ConfigModel,
    purpose: PurposeModel,
    err: Seq<char>,
) -> ResponseModel {
    match purpose {
        PurposeModel::Query { sql, cap } => query_answer(id, config, Err(err)),
        PurposeModel::Metadata => metadata_answer(id, config, Err(err)),
    }
}

/// A call that needs an open connection: the connection is to be found.
pub struct Search {
    pub connection_id: String,
    pub purpose: Purpose,
}

/// A call on an open connection: the server is to be asked.
pub struct Asking {
    pub connection_id: String,
    pub connection: InfluxConnection,
    pub purpose: Purpose,
}

impl Search {
    /// Starts a query, of the statement under the first of its names that is given.
    pub fn query(
        connection_id: String,
        sql: Option<&str>,
        query: Option<&str>,
        statement: Option<&str>,
        cap: usize,
    ) -> (search: Result<Search, Response>)
        ensures
            match statement_given(opt_str(sql), opt_str(query), opt_str(statement)) {
                Some(text) => search matches Ok(s) && s.connection_id@ == connection_id@
                    && s.purpose@ == (PurposeModel::Query { sql: text, cap: cap as nat }),
                None => search matches Err(r) && r@ == invalid_request(
                    "query requires a string sql, query, or statement field."@,
                ),
            },
    {
        match query_statement(sql, query, statement) {
            Ok(text) => Ok(
                Search { connection_id, purpose: Purpose::Query { sql: text.to_string(), cap } },
            ),
            Err(response) => Err(response),
        }
    }

    /// Starts to describe a database.
    pub fn metadata(connection_id: String) -> (search: Search)
        ensures
            search.connection_id@ == connection_id@,
            search.purpose@ == PurposeModel::Metadata,
    {
        Search { connection_id, purpose: Purpose::Metadata }
    }

    /// Goes on with the connection of the name, or answers that none is open.
    pub fn find(self, connections: &Connections) -> (asking: Result<Asking, Response>)
        requires
            connections.wf(),
        ensures
            connections@.contains_key(self.connection_id@) ==> (asking matches Ok(a)
                && a.connection_id@ == self.connection_id@ && a.purpose@ == self.purpose@
                && a.connection@ == connections@[self.connection_id@]),
            !connections@.contains_key(self.connection_id@) ==> (asking matches Err(r) && r@
                == not_found(self.connection_id@)),
    {
        match connections.connection(self.connection_id.as_str()) {
            Ok(connection) => Ok(
                Asking {
                    connection_id: self.connection_id,
                    connection,
                    purpose: self.purpose,
                },
            ),
            Err(response) => Err(response),
        }
    }
}

impl Asking {
    /// What is posted.
    pub fn payload(&self) -> (payload: Json)
        ensures
            payload@ == query_document(self.connection@.config, statement_sent(self.purpose@)),
            valid(payload@),
    {
        match &self.purpose {
            Purpose::Query { sql, cap } => query_payload(&self.connection.config, sql.as_str()),
            Purpose::Metadata => query_payload(
                &self.connection.config,
                metadata_query().as_str(),
            ),
        }
    }

    fn finish(self, outcome: Result<QueryOutput, String>) -> (response: Response)
        requires
            outcome_valid(outcome),
        ensures
            response@ == reply(
                self.connection_id@,
                self.connection@.config,
                self.purpose@,
                answer_result(outcome),
            ),
            well_formed(response@),
    {
        match self.purpose {
            Purpose::Query { sql, cap } => query(
                self.connection_id.as_str(),
                &self.connection,
                outcome,
            ),
            Purpose::Metadata => {
                let description = load_metadata(&self.connection.config, outcome);
                metadata(self.connection_id.as_str(), &self.connection, Ok(description))
            },
        }
    }

    /// The answer where nothing could be sent at all.
    pub fn no_runtime(self, err: String) -> (response: Response)
        ensures
            response@ == reply_without_runtime(
                self.connection_id@,
                self.connection@.config,
                self.purpose@,
                err@,
            ),
            well_formed(response@),
    {
        match self.purpose {
            Purpose::Query { sql, cap } => query(
                self.connection_id.as_str(),
                &self.connection,
                Err(err),
            ),
            Purpose::Metadata => metadata(
                self.connection_id.as_str(),
                &self.connection,
                Err(err),
            ),
        }
    }

    /// The answer where the statement was not sent or not answered.
    pub fn unsent(self, err: &str) -> (response: Response)
        ensures
            response@ == reply(
                self.connection_id@,
                self.connection@.config,
                self.purpose@,
                Err("InfluxDB query request failed: "@ + err@),
            ),
            well_formed(response@),
    {
        self.finish(Err(query_unsent(err)))
    }

    /// The answer where the server's answer could not be read.
    pub fn unread(self, err: &str) -> (response: Response)
        ensures
            response@ == reply(
                self.connection_id@,
                self.connection@.config,
                self.purpose@,
                Err("InfluxDB response read failed: "@ + err@),
            ),
            well_formed(response@),
    {
        self.finish(Err(query_unread(err)))
    }

    /// The answer, given the status and the text of the server's answer.
    pub fn answered(self, code: u16, status: &str, text: &str) -> (response: Response)
        ensures
            response@ == reply(
                self.connection_id@,
                self.connection@.config,
                self.purpose@,
                answer(code, status@, text@, rows_taken(self.purpose@)),
            ),
            well_formed(response@),
    {
        let cap: usize = match &self.purpose {
            Purpose::Query { sql, cap } => *cap,
            Purpose::Metadata => METADATA_ROWS,
        };
        self.finish(query_outcome(code, status, text, cap))
    }
}

} // verus!
