//! What a request asks of a connection, and what a connection sends.

use vstd::prelude::*;
use vstd::utf8::encode_utf8;

use crate::config::{
    authorization, config_asked, database_named, host_url, query_address, query_language,
    server_url, ConfigModel,
};
use crate::exchange::query_document;
use crate::json::JsonModel;
use crate::laws::texts::{law_numerals_are_decimal, law_trailing_characters_are_left_out};
use crate::numeral::decimal;
use crate::replace::lowered;
use crate::request::{bool_option, secret_given, string_option, u16_option};
use crate::session::{rows_taken, statement_sent, PurposeModel};
use crate::text::{skip_trailing, trimmed, CharSet};
use crate::tls::tls_asked;
use crate::url::{encoded, normalized, origin, path_database, url_credentials};

verus! {

/// A URL that a request names goes before its host and port, and is put in normal form.
pub proof fn law_url_goes_before_host_and_port(request: JsonModel)
    ensures
        match string_option(request, seq!["connectionString"@, "url"@, "dsn"@]) {
            Some(url) => server_url(request) == normalized(url),
            None => server_url(request) == Ok::<_, Seq<char>>(host_url(request)),
        },
{
}

/// The server's URL ends with the port that a request names, and with port 8086 where it names
/// none that can be read, with TLS as without.
pub proof fn law_server_port(request: JsonModel)
    requires
        string_option(request, seq!["connectionString"@, "url"@, "dsn"@]) is None,
    ensures
        server_url(request) matches Ok(url) && {
            let port = match u16_option(request, seq!["port"@]) {
                Some(p) => ":"@ + decimal(p as nat),
                None => ":8086"@,
            };
            &&& url.len() > port.len()
            &&& url.skip(url.len() - port.len()) == port
        },
{
    let url = host_url(request);
    lemma_default_port();
    reveal_strlit("://");
    let p: u16 = match u16_option(request, seq!["port"@]) {
        Some(p) => p,
        None => 8086,
    };
    let tail = ":"@ + decimal(p as nat);
    assert(url.skip(url.len() - tail.len()) =~= tail);
}

/// Without a URL the server's URL is the scheme, the host and the port, and nothing else. The
/// scheme is that of TLS exactly where TLS is asked for; the host is this machine where none is named.
pub proof fn law_server_of_host_and_port(request: JsonModel)
    requires
        string_option(request, seq!["connectionString"@, "url"@, "dsn"@]) is None,
    ensures
        ({
            let scheme = if bool_option(request, seq!["tls"@, "ssl"@, "useTls"@]) == Some(true) {
                "https://"@
            } else {
                "http://"@
            };
            let host = match string_option(request, seq!["host"@, "hostname"@]) {
                Some(host) => host,
                None => "127.0.0.1"@,
            };
            let port = match u16_option(request, seq!["port"@]) {
                Some(p) => ":"@ + decimal(p as nat),
                None => ":8086"@,
            };
            server_url(request) == Ok::<_, Seq<char>>(scheme + host + port)
        }),
{
    lemma_schemes();
    lemma_default_port();
    let url = host_url(request);
    let scheme = if bool_option(request, seq!["tls"@, "ssl"@, "useTls"@]) == Some(true) {
        "https://"@
    } else {
        "http://"@
    };
    let host = match string_option(request, seq!["host"@, "hostname"@]) {
        Some(host) => host,
        None => "127.0.0.1"@,
    };
    let port = match u16_option(request, seq!["port"@]) {
        Some(p) => ":"@ + decimal(p as nat),
        None => ":8086"@,
    };
    assert(url =~= scheme + host + port);
}

/// The default port, as it ends a URL.
proof fn lemma_default_port()
    ensures
        ":"@ + decimal(8086) == ":8086"@,
{
    reveal_strlit(":8086");
    reveal_strlit(":");
    law_numerals_are_decimal(0, 8);
    law_numerals_are_decimal(8, 0);
    law_numerals_are_decimal(80, 8);
    law_numerals_are_decimal(808, 6);
    assert(decimal(8) =~= seq!['8']);
    assert(decimal(80) =~= seq!['8'].push('0'));
    assert(decimal(808) =~= seq!['8'].push('0').push('8'));
    assert(decimal(8086) =~= seq!['8'].push('0').push('8').push('6'));
    assert(":"@ + decimal(8086) =~= ":8086"@);
}

/// A scheme and what stands behind it.
proof fn lemma_schemes()
    ensures
        "https"@ + "://"@ == "https://"@,
        "http"@ + "://"@ == "http://"@,
{
    reveal_strlit("http");
    reveal_strlit("https");
    reveal_strlit("://");
    reveal_strlit("http://");
    reveal_strlit("https://");
    assert("https"@ + "://"@ =~= "https://"@);
    assert("http"@ + "://"@ =~= "http://"@);
}

/// The database is the one that a request names, or else the path of its URL, or else `default`.
pub proof fn law_database_of_a_request(request: JsonModel, url: Seq<char>)
    ensures
        match string_option(
            request,
            seq!["database"@, "db"@, "bucket"@, "bucketName"@, "organization"@, "org"@],
        ) {
            Some(database) => database_named(request, url) == database,
            None => match path_database(url) {
                Some(database) => database_named(request, url) == database,
                None => database_named(request, url) == "default"@,
            },
        },
{
}

/// A request is refused exactly where its URL is, or where it asks for another language than SQL;
/// without a language it asks for SQL.
pub proof fn law_refused_requests(request: JsonModel)
    ensures
        config_asked(request) is Err <==> (server_url(request) is Err || query_language(request)
            != "sql"@),
        server_url(request) matches Err(e) ==> config_asked(request) == Err::<ConfigModel, _>(e),
        server_url(request) is Ok && query_language(request) != "sql"@ ==> config_asked(request)
            == Err::<ConfigModel, _>(
            "this native InfluxDB driver currently supports SQL queryType only."@,
        ),
        string_option(request, seq!["queryType"@, "language"@]) matches Some(language)
            ==> query_language(request) == lowered(language),
        string_option(request, seq!["queryType"@, "language"@]) is None ==> query_language(request)
            == "sql"@,
{
    reveal_strlit("sql");
    assert(lowered("sql"@) =~= "sql"@);
}

/// A configuration holds the scheme and host of the URL, the database, the token as it was given,
/// the transport security and nothing but the token and the URL's credentials as sensitive.
pub proof fn law_configuration_of_a_request(request: JsonModel)
    ensures
        config_asked(request) matches Ok(config) ==> {
            &&& server_url(request) matches Ok(url) && {
                &&& config.base_url == origin(url)
                &&& config.database == database_named(request, url)
                &&& config.redaction_values == (match config.token {
                    Some(token) => seq![token] + url_credentials(url),
                    None => url_credentials(url),
                })
            }
            &&& config.token == secret_given(
                request,
                seq![
                    "token"@,
                    "apiKey"@,
                    "influxToken"@,
                    "bearerToken"@,
                    "oauthAccessToken"@,
                    "password"@,
                ],
            )
            &&& config.query_type == "sql"@
            &&& config.tls == tls_asked(request)
        },
{
    if let Ok(config) = config_asked(request) {
        let url = server_url(request)->Ok_0;
        assert(Seq::<Seq<char>>::empty() + url_credentials(url) =~= url_credentials(url));
        crate::laws::redaction::law_options_are_not_blank(
            request,
            crate::config::token_fields(),
        );
        if let Some(token) = config.token {
            if token.len() == 0 {
                assert(trimmed(token).len() == 0);
            }
        }
    }
}

/// The transport security that a request asks for stands under these names, the paths as they were
/// given. Certificates that do not verify are accepted only for one of three words.
pub proof fn law_transport_security_of_a_request(request: JsonModel)
    ensures
        tls_asked(request).root_cert_path == string_option(
            request,
            seq!["sslRootCert"@, "sslrootcert"@, "ssl-ca"@, "caCert"@],
        ),
        tls_asked(request).client_cert_path == string_option(
            request,
            seq!["sslCert"@, "sslcert"@, "ssl-cert"@, "clientCert"@],
        ),
        tls_asked(request).client_key_path == string_option(
            request,
            seq!["sslKey"@, "sslkey"@, "ssl-key"@, "clientKey"@],
        ),
        tls_asked(request).accept_invalid_certs <==> (string_option(
            request,
            seq!["sslInsecure"@, "tlsInsecure"@],
        ) matches Some(word) && (trimmed(word) == "1"@ || trimmed(word) == "true"@ || trimmed(word)
            == "yes"@)),
{
}

/// A token is sent behind the word `Token`, character for character; without a token nothing is
/// sent.
pub proof fn law_token_is_sent_as_it_is(config: ConfigModel)
    ensures
        match config.token {
            Some(token) => authorization(config) matches Some(header) && {
                &&& header.len() == 6 + token.len()
                &&& header.take(6) == "Token "@
                &&& forall|k: int| 0 <= k < token.len() ==> #[trigger] header[6 + k] == token[k]
                &&& header.skip(6) == token
            },
            None => authorization(config) is None,
        },
{
    reveal_strlit("Token ");
    if let Some(token) = config.token {
        let header = authorization(config)->0;
        assert(header.take(6) =~= "Token "@);
        assert(header.skip(6) =~= token);
    }
}

/// Different tokens are sent differently, and a token is never sent as none.
pub proof fn law_tokens_are_told_apart(a: ConfigModel, b: ConfigModel)
    requires
        authorization(a) == authorization(b),
    ensures
        a.token == b.token,
{
    law_token_is_sent_as_it_is(a);
    law_token_is_sent_as_it_is(b);
}

/// A query is posted to the server's address, without slashes at its end, for the named database.
pub proof fn law_query_address(config: ConfigModel)
    ensures
        query_address(config) == skip_trailing(config.base_url, CharSet::One('/'))
            + "/api/v3/query?database="@ + encoded(encode_utf8(config.database)),
        config.base_url.len() > 0 && config.base_url.last() != '/' ==> query_address(config)
            == config.base_url + "/api/v3/query?database="@ + encoded(
            encode_utf8(config.database),
        ),
{
    law_trailing_characters_are_left_out(config.base_url, CharSet::One('/'));
}

/// What is posted holds the statement, character for character, its language, and nothing else.
pub proof fn law_posted_statement(config: ConfigModel, sql: Seq<char>)
    ensures
        query_document(config, sql) matches JsonModel::Object(entries) && {
            &&& entries.len() == 2
            &&& entries[0] == ("query"@, JsonModel::String(sql))
            &&& entries[1] == ("type"@, JsonModel::String(config.query_type))
        },
{
}

/// A query sends its own statement and takes as many rows as it asks for. A description is asked
/// of the information schema, in ten thousand rows at most.
pub proof fn law_statements_and_caps(sql: Seq<char>, cap: nat)
    ensures
        statement_sent(PurposeModel::Query { sql, cap }) == sql,
        rows_taken(PurposeModel::Query { sql, cap }) == cap,
        statement_sent(PurposeModel::Metadata)
            == "SELECT table_name, column_name, data_type FROM information_schema.columns WHERE table_schema = 'public' ORDER BY table_name, ordinal_position"@,
        rows_taken(PurposeModel::Metadata) == 10_000,
{
}

} // verus!
