//! Transport security: what a request asks for, and the HTTP client that honours it.

use vstd::prelude::*;
use vstd::string::StringExecFns;

use crate::json::{Json, JsonModel};
use crate::request::{names, option_string, string_option};
use crate::text::{opt_string, same, trim, trimmed};

verus! {

#[verifier::external_type_specification]
#[verifier::external_body]
pub struct ExCertificate(reqwest::Certificate);

#[verifier::external_type_specification]
#[verifier::external_body]
pub struct ExIdentity(reqwest::Identity);

#[verifier::external_type_specification]
#[verifier::external_body]
pub struct ExClientBuilder(reqwest::ClientBuilder);

#[verifier::external_type_specification]
#[verifier::external_body]
pub struct ExClient(reqwest::Client);

#[verifier::external_type_specification]
#[verifier::external_body]
pub struct ExError(reqwest::Error);

/// Transport security, as the options of a profile declare it.
///
/// Paths, never key material: options are kept in the clear, so the profile carries a path and
/// the file is read when a connection is made.
#[derive(Debug, PartialEq, Eq)]
pub struct TlsConfig {
    pub root_cert_path: Option<String>,
    pub client_cert_path: Option<String>,
    pub client_key_path: Option<String>,
    pub accept_invalid_certs: bool,
}

/// What a [`TlsConfig`] holds.
#[verifier::ext_equal]
pub struct TlsModel {
    pub root_cert_path: Option<Seq<char>>,
    pub client_cert_path: Option<Seq<char>>,
    pub client_key_path: Option<Seq<char>>,
    pub accept_invalid_certs: bool,
}

impl View for TlsConfig {
    type V = TlsModel;

    open spec fn view(&self) -> TlsModel {
        TlsModel {
            root_cert_path: opt_string(self.root_cert_path),
            client_cert_path: opt_string(self.client_cert_path),
            client_key_path: opt_string(self.client_key_path),
            accept_invalid_certs: self.accept_invalid_certs,
        }
    }
}

/// No transport security asked for.
pub open spec fn no_tls() -> TlsModel {
    TlsModel {
        root_cert_path: None,
        client_cert_path: None,
        client_key_path: None,
        accept_invalid_certs: false,
    }
}

impl Default for TlsConfig {
    fn default() -> (tls: Self)
        ensures
            tls@ == no_tls(),
    {
        TlsConfig {
            root_cert_path: None,
            client_cert_path: None,
            client_key_path: None,
            accept_invalid_certs: false,
        }
    }
}

impl Clone for TlsConfig {
    fn clone(&self) -> (copy: Self)
        ensures
            copy@ == self@,
    {
        TlsConfig {
            root_cert_path: self.root_cert_path.clone(),
            client_cert_path: self.client_cert_path.clone(),
            client_key_path: self.client_key_path.clone(),
            accept_invalid_certs: self.accept_invalid_certs,
        }
    }
}

/// The words that switch an option on.
pub open spec fn switches_on(value: Option<Seq<char>>) -> bool {
    match value {
        Some(v) => trimmed(v) == "1"@ || trimmed(v) == "true"@ || trimmed(v) == "yes"@,
        None => false,
    }
}

/// The transport security that a request asks for.
pub open spec fn tls_asked(request: JsonModel) -> TlsModel {
    TlsModel {
        root_cert_path: string_option(
            request,
            seq!["sslRootCert"@, "sslrootcert"@, "ssl-ca"@, "caCert"@],
        ),
        client_cert_path: string_option(
            request,
            seq!["sslCert"@, "sslcert"@, "ssl-cert"@, "clientCert"@],
        ),
        client_key_path: string_option(
            request,
            seq!["sslKey"@, "sslkey"@, "ssl-key"@, "clientKey"@],
        ),
        accept_invalid_certs: switches_on(
            string_option(request, seq!["sslInsecure"@, "tlsInsecure"@]),
        ),
    }
}

/// The certificates of a PEM bundle, as `reqwest::Certificate::from_pem_bundle` gives them.
pub uninterp spec fn pem_certificates(pem: Seq<u8>) -> Result<
    Seq<reqwest::Certificate>,
    reqwest::Error,
>;

/// The identity of a PEM text, as `reqwest::Identity::from_pem` gives it.
pub uninterp spec fn pem_identity(pem: Seq<u8>) -> Result<reqwest::Identity, reqwest::Error>;

/// How an error of `reqwest` reads.
pub uninterp spec fn error_message(err: reqwest::Error) -> Seq<char>;

/// What a client builder has been told.
pub uninterp spec fn builder_settings(builder: reqwest::ClientBuilder) -> ClientSettings;

/// What a client was built with.
pub uninterp spec fn client_settings(client: reqwest::Client) -> ClientSettings;

/// The transport security of an HTTP client.
#[verifier::ext_equal]
pub struct ClientSettings {
    /// The certificates that it trusts beside the built-in ones.
    pub roots: Seq<reqwest::Certificate>,
    /// The identity that it presents.
    pub identity: Option<reqwest::Identity>,
    /// Whether it accepts certificates that do not verify.
    pub accept_invalid_certs: bool,
}

/// The settings of a client that was told nothing.
pub open spec fn plain_settings() -> ClientSettings {
    ClientSettings { roots: seq![], identity: None, accept_invalid_certs: false }
}

/// The certificates that were read, as a sequence.
pub open spec fn listed_certificates(
    certs: Result<Vec<reqwest::Certificate>, reqwest::Error>,
) -> Result<Seq<reqwest::Certificate>, reqwest::Error> {
    match certs {
        Ok(list) => Ok(list@),
        Err(err) => Err(err),
    }
}

/// The certificates that were read, as a sequence, or why they could not be.
pub open spec fn certificate_list(certs: Result<Vec<reqwest::Certificate>, String>) -> Result<
    Seq<reqwest::Certificate>,
    Seq<char>,
> {
    match certs {
        Ok(list) => Ok(list@),
        Err(err) => Err(err@),
    }
}

/// A result whose error is a text.
pub open spec fn text_error<T>(result: Result<T, String>) -> Result<T, Seq<char>> {
    match result {
        Ok(value) => Ok(value),
        Err(err) => Err(err@),
    }
}

/// `reqwest::Certificate::from_pem_bundle` reads the certificates of a PEM bundle, or fails: which
/// of the two, and with what, depends on the bytes alone.
#[verifier::external_body]
fn read_certificates(pem: &Vec<u8>) -> (certs: Result<Vec<reqwest::Certificate>, reqwest::Error>)
    ensures
        listed_certificates(certs) == pem_certificates(pem@),
{
    reqwest::Certificate::from_pem_bundle(pem)
}

/// `reqwest::Identity::from_pem` reads a private key and its certificates, or fails: which of the
/// two, and with what, depends on the bytes alone.
#[verifier::external_body]
fn read_identity(pem: &Vec<u8>) -> (identity: Result<reqwest::Identity, reqwest::Error>)
    ensures
        identity == pem_identity(pem@),
{
    reqwest::Identity::from_pem(pem)
}

/// `reqwest::Error` reads as its `Display` writes it.
#[verifier::external_body]
fn describe_error(err: &reqwest::Error) -> (text: String)
    ensures
        text@ == error_message(*err),
{
    err.to_string()
}

/// `reqwest::Client::builder` starts with no added root, no identity, and verification on.
#[verifier::external_body]
fn new_builder() -> (builder: reqwest::ClientBuilder)
    ensures
        builder_settings(builder) == plain_settings(),
{
    reqwest::Client::builder()
}

/// `ClientBuilder::add_root_certificate` adds one root after those added before.
#[verifier::external_body]
fn add_root(builder: reqwest::ClientBuilder, cert: reqwest::Certificate) -> (next:
    reqwest::ClientBuilder)
    ensures
        builder_settings(next) == (ClientSettings {
            roots: builder_settings(builder).roots.push(cert),
            ..builder_settings(builder)
        }),
{
    builder.add_root_certificate(cert)
}

/// `ClientBuilder::identity` sets the identity.
#[verifier::external_body]
fn set_identity(builder: reqwest::ClientBuilder, identity: reqwest::Identity) -> (next:
    reqwest::ClientBuilder)
    ensures
        builder_settings(next) == (ClientSettings {
            identity: Some(identity),
            ..builder_settings(builder)
        }),
{
    builder.identity(identity)
}

/// `ClientBuilder::danger_accept_invalid_certs` sets whether certificates need not verify.
#[verifier::external_body]
fn set_accept_invalid(builder: reqwest::ClientBuilder, accept: bool) -> (next:
    reqwest::ClientBuilder)
    ensures
        builder_settings(next) == (ClientSettings {
            accept_invalid_certs: accept,
            ..builder_settings(builder)
        }),
{
    builder.danger_accept_invalid_certs(accept)
}

/// `ClientBuilder::build` makes a client of what the builder has been told, or fails. Whether it
/// fails depends on the machine too.
#[verifier::external_body]
fn build(builder: reqwest::ClientBuilder) -> (client: Result<reqwest::Client, reqwest::Error>)
    ensures
        client matches Ok(c) ==> client_settings(c) == builder_settings(builder),
{
    builder.build()
}

/// A PEM file that a client may need.
#[derive(Clone, Copy, Debug, PartialEq, Eq, Structural)]
pub enum PemFile {
    RootCert,
    ClientCert,
    ClientKey,
}

/// What has come of reading a PEM file so far.
pub enum PemRead {
    /// Nothing: it has not been read.
    Unread,
    /// Its bytes.
    Bytes(Vec<u8>),
    /// Why it could not be read.
    Failed(String),
}

/// What a [`PemRead`] holds.
pub enum PemReadModel {
    Unread,
    Bytes(Seq<u8>),
    Failed(Seq<char>),
}

impl View for PemRead {
    type V = PemReadModel;

    open spec fn view(&self) -> PemReadModel {
        match self {
            PemRead::Unread => PemReadModel::Unread,
            PemRead::Bytes(bytes) => PemReadModel::Bytes(bytes@),
            PemRead::Failed(err) => PemReadModel::Failed(err@),
        }
    }
}

/// What has come of reading the PEM files so far.
pub struct PemFiles {
    pub root_cert: PemRead,
    pub client_cert: PemRead,
    pub client_key: PemRead,
}

impl PemFiles {
    /// No file has been read.
    pub fn unread() -> (files: PemFiles)
        ensures
            files.root_cert@ is Unread,
            files.client_cert@ is Unread,
            files.client_key@ is Unread,
    {
        PemFiles {
            root_cert: PemRead::Unread,
            client_cert: PemRead::Unread,
            client_key: PemRead::Unread,
        }
    }

    /// Takes note of what came of reading a file.
    pub fn record(&mut self, file: PemFile, read: Result<Vec<u8>, String>)
        ensures
            final(self).root_cert@ == if file is RootCert {
                read_outcome(read)
            } else {
                old(self).root_cert@
            },
            final(self).client_cert@ == if file is ClientCert {
                read_outcome(read)
            } else {
                old(self).client_cert@
            },
            final(self).client_key@ == if file is ClientKey {
                read_outcome(read)
            } else {
                old(self).client_key@
            },
    {
        let outcome = match read {
            Ok(bytes) => PemRead::Bytes(bytes),
            Err(err) => PemRead::Failed(err),
        };
        match file {
            PemFile::RootCert => {
                self.root_cert = outcome;
            },
            PemFile::ClientCert => {
                self.client_cert = outcome;
            },
            PemFile::ClientKey => {
                self.client_key = outcome;
            },
        }
    }
}

/// What came of reading a file.
pub open spec fn read_outcome(read: Result<Vec<u8>, String>) -> PemReadModel {
    match read {
        Ok(bytes) => PemReadModel::Bytes(bytes@),
        Err(err) => PemReadModel::Failed(err@),
    }
}

/// What to do next on the way to an HTTP client.
pub enum ClientStep {
    /// Read the file at `path` and take note of what came of it.
    Read { file: PemFile, path: String },
    /// Nothing: this is the outcome.
    Done(Result<reqwest::Client, String>),
}

/// What the configuration and the files read so far call for.
pub enum ClientPlan {
    Read(PemFile, Seq<char>),
    Fail(Seq<char>),
    Build(ClientSettings),
}

/// Why a PEM file could not be read.
pub open spec fn unreadable(label: Seq<char>, path: Seq<char>, err: Seq<char>) -> Seq<char> {
    label + " at "@ + path + " could not be read: "@ + err
}

/// A result whose error is put in words.
pub open spec fn worded<T>(result: Result<T, reqwest::Error>) -> Result<T, Seq<char>> {
    match result {
        Ok(value) => Ok(value),
        Err(err) => Err(error_message(err)),
    }
}

/// The roots that the file at `path` holds, where it could be read as PEM: at least one, or why
/// there is none.
pub open spec fn roots_read(
    path: Seq<char>,
    read: Result<Seq<reqwest::Certificate>, Seq<char>>,
) -> Result<Seq<reqwest::Certificate>, Seq<char>> {
    match read {
        Err(err) => Err("SSL root certificate at "@ + path + " is not valid PEM: "@ + err),
        Ok(certs) => if certs.len() == 0 {
            Err("SSL root certificate at "@ + path + " contains no PEM certificate."@)
        } else {
            Ok(certs)
        },
    }
}

/// The identity that was read, or why it cannot be used.
pub open spec fn identity_read(read: Result<reqwest::Identity, Seq<char>>) -> Result<
    reqwest::Identity,
    Seq<char>,
> {
    match read {
        Ok(identity) => Ok(identity),
        Err(err) => Err("SSL client identity is not usable: "@ + err),
    }
}

/// The client that was built, or why there is none.
pub open spec fn client_built(tls: TlsModel, built: Result<reqwest::Client, Seq<char>>) -> Result<
    reqwest::Client,
    Seq<char>,
> {
    match built {
        Ok(client) => Ok(client),
        Err(err) => Err(setup_failure(tls) + err),
    }
}

/// The roots that the configuration names.
pub open spec fn planned_roots(path: Option<Seq<char>>, read: PemReadModel) -> Result<
    Seq<reqwest::Certificate>,
    ClientPlan,
> {
    match path {
        None => Ok(seq![]),
        Some(path) => match read {
            PemReadModel::Unread => Err(ClientPlan::Read(PemFile::RootCert, path)),
            PemReadModel::Failed(err) => Err(
                ClientPlan::Fail(unreadable("SSL root certificate"@, path, err)),
            ),
            PemReadModel::Bytes(pem) => match roots_read(path, worded(pem_certificates(pem))) {
                Ok(certs) => Ok(certs),
                Err(message) => Err(ClientPlan::Fail(message)),
            },
        },
    }
}

/// A certificate and its key as one PEM text, the key on a line of its own.
pub open spec fn joined_pem(cert: Seq<u8>, key: Seq<u8>) -> Seq<u8> {
    if cert.len() > 0 && cert.last() == 10 {
        cert + key
    } else {
        cert.push(10) + key
    }
}

/// The identity that the configuration names: a certificate and its key, or none of the two.
pub open spec fn planned_identity(
    cert_path: Option<Seq<char>>,
    key_path: Option<Seq<char>>,
    cert: PemReadModel,
    key: PemReadModel,
) -> Result<Option<reqwest::Identity>, ClientPlan> {
    match (cert_path, key_path) {
        (None, None) => Ok(None),
        (Some(_), None) => Err(
            ClientPlan::Fail("SSL client certificate needs a matching client key."@),
        ),
        (None, Some(_)) => Err(
            ClientPlan::Fail("SSL client key needs a matching client certificate."@),
        ),
        (Some(cert_path), Some(key_path)) => match cert {
            PemReadModel::Unread => Err(ClientPlan::Read(PemFile::ClientCert, cert_path)),
            PemReadModel::Failed(err) => Err(
                ClientPlan::Fail(unreadable("SSL client certificate"@, cert_path, err)),
            ),
            PemReadModel::Bytes(cert) => match key {
                PemReadModel::Unread => Err(ClientPlan::Read(PemFile::ClientKey, key_path)),
                PemReadModel::Failed(err) => Err(
                    ClientPlan::Fail(unreadable("SSL client key"@, key_path, err)),
                ),
                PemReadModel::Bytes(key) => match identity_read(
                    worded(pem_identity(joined_pem(cert, key))),
                ) {
                    Ok(identity) => Ok(Some(identity)),
                    Err(message) => Err(ClientPlan::Fail(message)),
                },
            },
        },
    }
}

/// What the configuration and the files read so far call for: the roots first, then the identity.
pub open spec fn client_plan(
    tls: TlsModel,
    root: PemReadModel,
    cert: PemReadModel,
    key: PemReadModel,
) -> ClientPlan {
    match planned_roots(tls.root_cert_path, root) {
        Err(plan) => plan,
        Ok(roots) => match planned_identity(
            tls.client_cert_path,
            tls.client_key_path,
            cert,
            key,
        ) {
            Err(plan) => plan,
            Ok(identity) => ClientPlan::Build(
                ClientSettings { roots, identity, accept_invalid_certs: tls.accept_invalid_certs },
            ),
        },
    }
}

/// What a message on a client that could not be built begins with.
pub open spec fn setup_failure(tls: TlsModel) -> Seq<char> {
    if tls == no_tls() {
        "HTTP client setup failed: "@
    } else {
        "TLS client setup failed: "@
    }
}

/// The step that carries out `plan`.
pub open spec fn carries_out(tls: TlsModel, plan: ClientPlan, step: ClientStep) -> bool {
    match plan {
        ClientPlan::Read(file, path) => step matches ClientStep::Read { file: f, path: p } && f
            == file && p@ == path,
        ClientPlan::Fail(message) => step matches ClientStep::Done(Err(e)) && e@ == message,
        ClientPlan::Build(settings) => match step {
            ClientStep::Done(Ok(client)) => client_settings(client) == settings,
            ClientStep::Done(Err(e)) => exists|err: reqwest::Error|
                e@ == setup_failure(tls) + #[trigger] error_message(err),
            _ => false,
        },
    }
}

impl TlsConfig {
    /// The transport security that a request asks for.
    pub fn from_request(request: &Json) -> (tls: TlsConfig)
        ensures
            tls@ == tls_asked(request@),
    {
        let root_fields = ["sslRootCert", "sslrootcert", "ssl-ca", "caCert"];
        let cert_fields = ["sslCert", "sslcert", "ssl-cert", "clientCert"];
        let key_fields = ["sslKey", "sslkey", "ssl-key", "clientKey"];
        let insecure_fields = ["sslInsecure", "tlsInsecure"];
        proof {
            assert(names(root_fields@) =~= seq![
                "sslRootCert"@,
                "sslrootcert"@,
                "ssl-ca"@,
                "caCert"@,
            ]);
            assert(names(cert_fields@) =~= seq![
                "sslCert"@,
                "sslcert"@,
                "ssl-cert"@,
                "clientCert"@,
            ]);
            assert(names(key_fields@) =~= seq!["sslKey"@, "sslkey"@, "ssl-key"@, "clientKey"@]);
            assert(names(insecure_fields@) =~= seq!["sslInsecure"@, "tlsInsecure"@]);
        }
        let accept_invalid_certs = match option_string(request, &insecure_fields) {
            Some(value) => {
                let word = trim(value.as_str());
                same(word.as_str(), "1") || same(word.as_str(), "true") || same(
                    word.as_str(),
                    "yes",
                )
            },
            None => false,
        };
        TlsConfig {
            root_cert_path: option_string(request, &root_fields),
            client_cert_path: option_string(request, &cert_fields),
            client_key_path: option_string(request, &key_fields),
            accept_invalid_certs,
        }
    }

    /// The client that was built, or why there is none.
    pub fn client_outcome(&self, built: Result<reqwest::Client, String>) -> (outcome: Result<
        reqwest::Client,
        String,
    >)
        ensures
            text_error(outcome) == client_built(self@, text_error(built)),
    {
        match built {
            Ok(client) => Ok(client),
            Err(err) => {
                let plain = self.root_cert_path.is_none() && self.client_cert_path.is_none()
                    && self.client_key_path.is_none() && !self.accept_invalid_certs;
                if plain {
                    Err("HTTP client setup failed: ".to_string().concat(err.as_str()))
                } else {
                    Err("TLS client setup failed: ".to_string().concat(err.as_str()))
                }
            },
        }
    }

    fn roots(&self, files: &PemFiles) -> (roots: Result<Vec<reqwest::Certificate>, ClientStep>)
        ensures
            match planned_roots(self@.root_cert_path, files.root_cert@) {
                Ok(certs) => roots matches Ok(list) && list@ == certs,
                Err(plan) => roots matches Err(step) && carries_out(self@, plan, step),
            },
    {
        let path = match &self.root_cert_path {
            Some(path) => path,
            None => return Ok(Vec::new()),
        };
        match &files.root_cert {
            PemRead::Unread => Err(
                ClientStep::Read { file: PemFile::RootCert, path: path.clone() },
            ),
            PemRead::Failed(err) => Err(
                ClientStep::Done(
                    Err(read_pem_error("SSL root certificate", path.as_str(), err.as_str())),
                ),
            ),
            PemRead::Bytes(pem) => {
                let read = match read_certificates(pem) {
                    Ok(certs) => Ok(certs),
                    Err(err) => Err(describe_error(&err)),
                };
                match root_certificates(path.as_str(), read) {
                    Ok(certs) => Ok(certs),
                    Err(message) => Err(ClientStep::Done(Err(message))),
                }
            },
        }
    }

    fn identity(&self, files: &PemFiles) -> (identity: Result<
        Option<reqwest::Identity>,
        ClientStep,
    >)
        ensures
            match planned_identity(
                self@.client_cert_path,
                self@.client_key_path,
                files.client_cert@,
                files.client_key@,
            ) {
                Ok(id) => identity matches Ok(given) && given == id,
                Err(plan) => identity matches Err(step) && carries_out(self@, plan, step),
            },
    {
        let (cert_path, key_path) = match (&self.client_cert_path, &self.client_key_path) {
            (None, None) => return Ok(None),
            (Some(_), None) => return Err(
                ClientStep::Done(
                    Err("SSL client certificate needs a matching client key.".to_string()),
                ),
            ),
            (None, Some(_)) => return Err(
                ClientStep::Done(
                    Err("SSL client key needs a matching client certificate.".to_string()),
                ),
            ),
            (Some(cert_path), Some(key_path)) => (cert_path, key_path),
        };
        let cert = match &files.client_cert {
            PemRead::Unread => return Err(
                ClientStep::Read { file: PemFile::ClientCert, path: cert_path.clone() },
            ),
            PemRead::Failed(err) => return Err(
                ClientStep::Done(
                    Err(
                        read_pem_error(
                            "SSL client certificate",
                            cert_path.as_str(),
                            err.as_str(),
                        ),
                    ),
                ),
            ),
            PemRead::Bytes(cert) => cert,
        };
        let key = match &files.client_key {
            PemRead::Unread => return Err(
                ClientStep::Read { file: PemFile::ClientKey, path: key_path.clone() },
            ),
            PemRead::Failed(err) => return Err(
                ClientStep::Done(
                    Err(read_pem_error("SSL client key", key_path.as_str(), err.as_str())),
                ),
            ),
            PemRead::Bytes(key) => key,
        };
        let read = match read_identity(&join_pem(cert, key)) {
            Ok(id) => Ok(id),
            Err(err) => Err(describe_error(&err)),
        };
        match client_identity(read) {
            Ok(id) => Ok(Some(id)),
            Err(message) => Err(ClientStep::Done(Err(message))),
        }
    }

    /// The next step towards a client that honours the configuration, given the files read so far.
    ///
    /// The client is a plain one where nothing is configured.
    pub fn build_client(&self, files: &PemFiles) -> (step: ClientStep)
        ensures
            carries_out(
                self@,
                client_plan(self@, files.root_cert@, files.client_cert@, files.client_key@),
                step,
            ),
    {
        let roots = match self.roots(files) {
            Ok(roots) => roots,
            Err(step) => return step,
        };
        let identity = match self.identity(files) {
            Ok(identity) => identity,
            Err(step) => return step,
        };
        let ghost certs = roots@;
        let mut builder = new_builder();
        proof {
            assert(builder_settings(builder) =~= (ClientSettings {
                roots: certs.take(0),
                ..plain_settings()
            }));
        }
        for root in it: roots.into_iter()
            invariant
                it.seq() == certs,
                builder_settings(builder) == (ClientSettings {
                    roots: certs.take(it.index()),
                    ..plain_settings()
                }),
        {
            builder = add_root(builder, root);
            proof {
                assert(certs.take(it.index() + 1) =~= certs.take(it.index()).push(root));
            }
        }
        proof {
            assert(certs.take(certs.len() as int) =~= certs);
        }
        if let Some(identity) = identity {
            builder = set_identity(builder, identity);
        }
        if self.accept_invalid_certs {
            builder = set_accept_invalid(builder, true);
        }
        match build(builder) {
            Ok(client) => ClientStep::Done(self.client_outcome(Ok(client))),
            Err(err) => {
                let detail = describe_error(&err);
                ClientStep::Done(self.client_outcome(Err(detail)))
            },
        }
    }
}

/// The roots that the file at `path` holds, where it could be read as PEM.
///
/// A file without a PEM block reads as an empty list. Going on without a root would leave the
/// built-in ones in place of the one that was named.
pub fn root_certificates(path: &str, read: Result<Vec<reqwest::Certificate>, String>) -> (roots:
    Result<Vec<reqwest::Certificate>, String>)
    ensures
        certificate_list(roots) == roots_read(path@, certificate_list(read)),
{
    match read {
        Err(err) => Err(
            "SSL root certificate at ".to_string().concat(path).concat(
                " is not valid PEM: ",
            ).concat(err.as_str()),
        ),
        Ok(certs) => if certs.is_empty() {
            Err(
                "SSL root certificate at ".to_string().concat(path).concat(
                    " contains no PEM certificate.",
                ),
            )
        } else {
            Ok(certs)
        },
    }
}

/// The identity that was read, or why it cannot be used.
pub fn client_identity(read: Result<reqwest::Identity, String>) -> (identity: Result<
    reqwest::Identity,
    String,
>)
    ensures
        text_error(identity) == identity_read(text_error(read)),
{
    match read {
        Ok(identity) => Ok(identity),
        Err(err) => Err("SSL client identity is not usable: ".to_string().concat(err.as_str())),
    }
}

/// Why a PEM file could not be read, in words.
fn read_pem_error(label: &str, path: &str, err: &str) -> (message: String)
    ensures
        message@ == unreadable(label@, path@, err@),
{
    label.to_string().concat(" at ").concat(path).concat(" could not be read: ").concat(err)
}

/// A certificate and its key as one PEM text: `reqwest` takes both halves in one.
fn join_pem(cert: &Vec<u8>, key: &Vec<u8>) -> (pem: Vec<u8>)
    ensures
        pem@ == joined_pem(cert@, key@),
{
    let mut pem: Vec<u8> = Vec::new();
    pem.extend_from_slice(cert.as_slice());
    proof {
        assert(pem@ =~= cert@);
    }
    let n = cert.len();
    if n == 0 || cert[n - 1] != 10 {
        pem.push(10);
    }
    let ghost head = pem@;
    pem.extend_from_slice(key.as_slice());
    proof {
        assert(pem@ =~= head + key@);
    }
    pem
}

} // verus!
