//! The configuration of a connection: how it is read from a request, and what follows from it.

use vstd::prelude::*;
use vstd::string::StringExecFns;
use vstd::utf8::encode_utf8;

use crate::json::{Json, JsonModel};
use crate::numeral::{decimal, to_decimal};
use crate::replace::{lowered, replace, replaced, to_lower};
use crate::request::{
    bool_option, names, option_bool, option_string, option_u16, secret_given, secret_option,
    string_option, u16_option,
};
use crate::text::{opt_string, same, skip_trailing, strip_end, views, CharSet};
use crate::tls::{tls_asked, TlsConfig, TlsModel};
use crate::url::{
    collect_url_auth, database_from_url, encoded, normalize_url, normalized, origin,
    path_database, push_sensitive, sensitive, strip_query_and_path_database, url_component,
    url_credentials,
};

verus! {

/// The configuration of a connection.
#[derive(Debug, PartialEq, Eq)]
pub struct InfluxConfig {
    /// The scheme, host and port of the server.
    pub base_url: String,
    pub database: String,
    pub token: Option<String>,
    pub query_type: String,
    pub tls: TlsConfig,
    /// The texts that messages must not show.
    pub redaction_values: Vec<String>,
}

/// What an [`InfluxConfig`] holds.
#[verifier::ext_equal]
pub struct ConfigModel {
    pub base_url: Seq<char>,
    pub database: Seq<char>,
    pub token: Option<Seq<char>>,
    pub query_type: Seq<char>,
    pub tls: TlsModel,
    pub redaction_values: Seq<Seq<char>>,
}

impl View for InfluxConfig {
    type V = ConfigModel;

    open spec fn view(&self) -> ConfigModel {
        ConfigModel {
            base_url: self.base_url@,
            database: self.database@,
            token: opt_string(self.token),
            query_type: self.query_type@,
            tls: self.tls@,
            redaction_values: views(self.redaction_values@),
        }
    }
}

impl Clone for InfluxConfig {
    fn clone(&self) -> (copy: Self)
        ensures
            copy@ == self@,
    {
        let mut redaction_values: Vec<String> = Vec::new();
        let mut i: usize = 0;
        while i < self.redaction_values.len()
            invariant
                i <= self.redaction_values@.len(),
                views(redaction_values@) == views(self.redaction_values@.take(i as int)),
            decreases self.redaction_values@.len() - i,
        {
            redaction_values.push(self.redaction_values[i].clone());
            i = i + 1;
            proof {
                assert(views(self.redaction_values@.take(i as int)) =~= views(
                    self.redaction_values@.take(i - 1),
                ).push(self.redaction_values@[i - 1]@));
                assert(views(redaction_values@) =~= views(self.redaction_values@.take(i as int)));
            }
        }
        proof {
            assert(self.redaction_values@.take(i as int) =~= self.redaction_values@);
        }
        InfluxConfig {
            base_url: self.base_url.clone(),
            database: self.database.clone(),
            token: self.token.clone(),
            query_type: self.query_type.clone(),
            tls: self.tls.clone(),
            redaction_values,
        }
    }
}

/// The text, or another one where there is none.
pub open spec fn text_or(text: Option<Seq<char>>, other: Seq<char>) -> Seq<char> {
    match text {
        Some(t) => t,
        None => other,
    }
}

/// The URL of the host and port that a request names: by default port 8086 of this machine, over
/// plain HTTP.
pub open spec fn host_url(request: JsonModel) -> Seq<char> {
    let host = text_or(string_option(request, seq!["host"@, "hostname"@]), "127.0.0.1"@);
    let port: u16 = match u16_option(request, seq!["port"@]) {
        Some(port) => port,
        None => 8086,
    };
    let scheme = if bool_option(request, seq!["tls"@, "ssl"@, "useTls"@]) == Some(true) {
        "https"@
    } else {
        "http"@
    };
    scheme + "://"@ + host + ":"@ + decimal(port as nat)
}

/// The URL of the host and port that a request names.
pub fn build_url(request: &Json) -> (url: String)
    ensures
        url@ == host_url(request@),
{
    let host_fields = ["host", "hostname"];
    let port_fields = ["port"];
    let tls_fields = ["tls", "ssl", "useTls"];
    proof {
        assert(names(host_fields@) =~= seq!["host"@, "hostname"@]);
        assert(names(port_fields@) =~= seq!["port"@]);
        assert(names(tls_fields@) =~= seq!["tls"@, "ssl"@, "useTls"@]);
    }
    let host = match option_string(request, &host_fields) {
        Some(host) => host,
        None => "127.0.0.1".to_string(),
    };
    let port: u16 = match option_u16(request, &port_fields) {
        Some(port) => port,
        None => 8086,
    };
    let tls = match option_bool(request, &tls_fields) {
        Some(tls) => tls,
        None => false,
    };
    let scheme = if tls {
        "https"
    } else {
        "http"
    };
    scheme.to_string().concat("://").concat(host.as_str()).concat(":").concat(
        to_decimal(port as u64).as_str(),
    )
}

/// The names under which a request gives a URL.
pub open spec fn url_fields() -> Seq<Seq<char>> {
    seq!["connectionString"@, "url"@, "dsn"@]
}

/// The names under which a request gives a database.
pub open spec fn database_fields() -> Seq<Seq<char>> {
    seq!["database"@, "db"@, "bucket"@, "bucketName"@, "organization"@, "org"@]
}

/// The names under which a request gives a token.
///
/// An API token and an OAuth access token are sent in the same way; the names let a profile say
/// which of them it holds.
pub open spec fn token_fields() -> Seq<Seq<char>> {
    seq![
        "token"@,
        "apiKey"@,
        "influxToken"@,
        "bearerToken"@,
        "oauthAccessToken"@,
        "password"@,
    ]
}

/// The names under which a request gives the query language.
pub open spec fn query_type_fields() -> Seq<Seq<char>> {
    seq!["queryType"@, "language"@]
}

/// The URL that a request names, whole or by host and port.
pub open spec fn server_url(request: JsonModel) -> Result<Seq<char>, Seq<char>> {
    match string_option(request, url_fields()) {
        Some(url) => normalized(url),
        None => Ok(host_url(request)),
    }
}

/// The database that a request names, or its URL.
pub open spec fn database_named(request: JsonModel, url: Seq<char>) -> Seq<char> {
    match string_option(request, database_fields()) {
        Some(database) => database,
        None => text_or(path_database(url), "default"@),
    }
}

/// The query language that a request names.
pub open spec fn query_language(request: JsonModel) -> Seq<char> {
    lowered(text_or(string_option(request, query_type_fields()), "sql"@))
}

/// The configuration that a request asks for, or why there is none.
pub open spec fn config_asked(request: JsonModel) -> Result<ConfigModel, Seq<char>> {
    match server_url(request) {
        Err(err) => Err(err),
        Ok(url) => if query_language(request) != "sql"@ {
            Err("this native InfluxDB driver currently supports SQL queryType only."@)
        } else {
            let token = secret_given(request, token_fields());
            Ok(
                ConfigModel {
                    base_url: origin(url),
                    database: database_named(request, url),
                    token,
                    query_type: "sql"@,
                    tls: tls_asked(request),
                    redaction_values: sensitive(token) + url_credentials(url),
                },
            )
        },
    }
}

/// The view of a configuration that was read or refused.
pub open spec fn config_result(result: Result<InfluxConfig, String>) -> Result<
    ConfigModel,
    Seq<char>,
> {
    match result {
        Ok(config) => Ok(config@),
        Err(err) => Err(err@),
    }
}

/// The address to which a query is posted.
pub open spec fn query_address(config: ConfigModel) -> Seq<char> {
    skip_trailing(config.base_url, CharSet::One('/')) + "/api/v3/query?database="@ + encoded(
        encode_utf8(config.database),
    )
}

/// `message` with `****` in place of each of `values`, one after another; an empty one is passed
/// over.
pub open spec fn masked(message: Seq<char>, values: Seq<Seq<char>>) -> Seq<char>
    decreases values.len(),
{
    if values.len() == 0 {
        message
    } else {
        let rest = masked(message, values.drop_last());
        if values.last().len() == 0 {
            rest
        } else {
            replaced(rest, values.last(), "****"@)
        }
    }
}

/// `message` without the server's address and without the texts that messages must not show.
pub open spec fn redacted(config: ConfigModel, message: Seq<char>) -> Seq<char> {
    masked(replaced(message, config.base_url, "<influxdb-url>"@), config.redaction_values)
}

/// What is sent as `Authorization`.
pub open spec fn authorization(config: ConfigModel) -> Option<Seq<char>> {
    match config.token {
        Some(token) => Some("Token "@ + token),
        None => None,
    }
}

impl InfluxConfig {
    /// The configuration that a request asks for, or why there is none.
    pub fn from_request(request: &Json) -> (config: Result<InfluxConfig, String>)
        ensures
            config_result(config) == config_asked(request@),
    {
        let url_names = ["connectionString", "url", "dsn"];
        let database_names = ["database", "db", "bucket", "bucketName", "organization", "org"];
        let token_names = [
            "token",
            "apiKey",
            "influxToken",
            "bearerToken",
            "oauthAccessToken",
            "password",
        ];
        let query_type_names = ["queryType", "language"];
        proof {
            assert(names(url_names@) =~= url_fields());
            assert(names(database_names@) =~= database_fields());
            assert(names(token_names@) =~= token_fields());
            assert(names(query_type_names@) =~= query_type_fields());
        }
        let url = match option_string(request, &url_names) {
            Some(url) => match normalize_url(url.as_str()) {
                Ok(url) => url,
                Err(err) => return Err(err),
            },
            None => build_url(request),
        };
        let database = match option_string(request, &database_names) {
            Some(database) => database,
            None => match database_from_url(url.as_str()) {
                Some(database) => database,
                None => "default".to_string(),
            },
        };
        let token = secret_option(request, &token_names);
        let language = match option_string(request, &query_type_names) {
            Some(language) => language,
            None => "sql".to_string(),
        };
        let query_type = to_lower(language.as_str());
        if !same(query_type.as_str(), "sql") {
            return Err(
                "this native InfluxDB driver currently supports SQL queryType only.".to_string(),
            );
        }
        let tls = TlsConfig::from_request(request);
        let mut redaction_values: Vec<String> = Vec::new();
        proof {
            assert(views(redaction_values@) =~= seq![]);
        }
        match &token {
            Some(token) => push_sensitive(&mut redaction_values, Some(token.as_str())),
            None => push_sensitive(&mut redaction_values, None),
        }
        collect_url_auth(url.as_str(), &mut redaction_values);
        proof {
            let t = secret_given(request@, token_fields());
            assert(Seq::<Seq<char>>::empty() + sensitive(t) =~= sensitive(t));
        }
        Ok(
            InfluxConfig {
                base_url: strip_query_and_path_database(url.as_str()),
                database,
                token,
                query_type,
                tls,
                redaction_values,
            },
        )
    }

    /// The address to which a query is posted.
    pub fn query_url(&self) -> (url: String)
        ensures
            url@ == query_address(self@),
    {
        strip_end(self.base_url.as_str(), CharSet::One('/')).concat(
            "/api/v3/query?database=",
        ).concat(url_component(self.database.as_str()).as_str())
    }

    /// The address at which the server is greeted.
    pub fn ping_url(&self) -> (url: String)
        ensures
            url@ == self@.base_url + "/ping"@,
    {
        self.base_url.clone().concat("/ping")
    }

    /// What is sent as `Authorization`.
    pub fn auth(&self) -> (header: Option<String>)
        ensures
            opt_string(header) == authorization(self@),
    {
        match &self.token {
            Some(token) => Some("Token ".to_string().concat(token.as_str())),
            None => None,
        }
    }

    /// `message` without the server's address and without the texts that messages must not show.
    pub fn redact(&self, message: &str) -> (safe: String)
        ensures
            safe@ == redacted(self@, message@),
    {
        let mut safe = replace(message, self.base_url.as_str(), "<influxdb-url>");
        let ghost start = safe@;
        let mut i: usize = 0;
        proof {
            assert(views(self.redaction_values@.take(0)) =~= seq![]);
        }
        while i < self.redaction_values.len()
            invariant
                i <= self.redaction_values@.len(),
                safe@ == masked(start, views(self.redaction_values@.take(i as int))),
            decreases self.redaction_values@.len() - i,
        {
            let secret = &self.redaction_values[i];
            if !secret.as_str().is_empty() {
                safe = replace(safe.as_str(), secret.as_str(), "****");
            }
            i = i + 1;
            proof {
                let now = views(self.redaction_values@.take(i as int));
                assert(now.drop_last() =~= views(self.redaction_values@.take(i - 1)));
                assert(now.last() == secret@);
            }
        }
        proof {
            assert(self.redaction_values@.take(i as int) =~= self.redaction_values@);
        }
        safe
    }
}

} // verus!
