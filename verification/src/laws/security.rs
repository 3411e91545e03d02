//! The client that is built is the one that the configuration asks for.

use vstd::prelude::*;

use crate::session::Opening;
use crate::tls::{
    carries_out, client_built, client_plan, client_settings, error_message, identity_read,
    joined_pem, no_tls, pem_certificates, pem_identity, plain_settings, roots_read, ClientPlan,
    ClientStep, PemFile, PemReadModel, TlsModel,
};

verus! {

/// A client is built only where everything that the configuration names is in it: at least one
/// root of the named file, the identity of the named certificate and key, and verification unless
/// it was switched off.
pub proof fn law_client_honours_configuration(
    tls: TlsModel,
    root: PemReadModel,
    cert: PemReadModel,
    key: PemReadModel,
)
    ensures
        client_plan(tls, root, cert, key) matches ClientPlan::Build(settings) ==> {
            &&& settings.accept_invalid_certs == tls.accept_invalid_certs
            &&& tls.root_cert_path is None ==> settings.roots.len() == 0
            &&& tls.root_cert_path is Some ==> settings.roots.len() > 0 && (
            root matches PemReadModel::Bytes(pem) && pem_certificates(pem) matches Ok(certs)
                && certs == settings.roots)
            &&& tls.client_cert_path is Some <==> tls.client_key_path is Some
            &&& tls.client_cert_path is None ==> settings.identity is None
            &&& tls.client_cert_path is Some ==> (cert matches PemReadModel::Bytes(c)
                && key matches PemReadModel::Bytes(k) && pem_identity(
                joined_pem(c, k),
            ) matches Ok(identity) && settings.identity == Some(identity))
        },
{
}

/// Half an identity is never passed over: with a certificate and no key, or a key and no
/// certificate, no client is built, whatever the files hold.
pub proof fn law_half_an_identity_is_refused(
    tls: TlsModel,
    root: PemReadModel,
    cert: PemReadModel,
    key: PemReadModel,
)
    requires
        tls.client_cert_path is Some != tls.client_key_path is Some,
    ensures
        client_plan(tls, root, cert, key) !is Build,
{
}

/// Where nothing is configured the client is a plain one, and no file is read.
pub proof fn law_nothing_configured_is_plain(
    root: PemReadModel,
    cert: PemReadModel,
    key: PemReadModel,
)
    ensures
        client_plan(no_tls(), root, cert, key) == ClientPlan::Build(plain_settings()),
{
}

/// What has come of a file.
pub open spec fn read_of(
    file: PemFile,
    root: PemReadModel,
    cert: PemReadModel,
    key: PemReadModel,
) -> PemReadModel {
    match file {
        PemFile::RootCert => root,
        PemFile::ClientCert => cert,
        PemFile::ClientKey => key,
    }
}

/// The path of a file.
pub open spec fn path_of(tls: TlsModel, file: PemFile) -> Option<Seq<char>> {
    match file {
        PemFile::RootCert => tls.root_cert_path,
        PemFile::ClientCert => tls.client_cert_path,
        PemFile::ClientKey => tls.client_key_path,
    }
}

/// Only a file that is named is read, and none that has been read before: after three at most
/// there is an outcome.
pub proof fn law_files_are_read_once(
    tls: TlsModel,
    root: PemReadModel,
    cert: PemReadModel,
    key: PemReadModel,
)
    ensures
        client_plan(tls, root, cert, key) matches ClientPlan::Read(file, path) ==> path_of(
            tls,
            file,
        ) == Some(path) && read_of(file, root, cert, key) is Unread,
        root !is Unread && cert !is Unread && key !is Unread ==> client_plan(
            tls,
            root,
            cert,
            key,
        ) !is Read,
{
}

/// The configuration that asks for nothing, and the client that was told nothing.
pub proof fn law_nothing_is_nothing()
    ensures
        no_tls().root_cert_path is None,
        no_tls().client_cert_path is None,
        no_tls().client_key_path is None,
        !no_tls().accept_invalid_certs,
        plain_settings().roots.len() == 0,
        plain_settings().identity is None,
        !plain_settings().accept_invalid_certs,
{
}

/// The roots are not in the way: none is named, or the file has been read and holds some.
pub open spec fn roots_settled(tls: TlsModel, root: PemReadModel) -> bool {
    tls.root_cert_path is None || (root matches PemReadModel::Bytes(pem) && pem_certificates(
        pem,
    ) matches Ok(certs) && certs.len() > 0)
}

/// A named root goes first: it is read, and what fails about it is said with its path.
pub proof fn law_root_goes_first(
    tls: TlsModel,
    path: Seq<char>,
    root: PemReadModel,
    cert: PemReadModel,
    key: PemReadModel,
)
    requires
        tls.root_cert_path == Some(path),
    ensures
        root is Unread ==> client_plan(tls, root, cert, key) == ClientPlan::Read(
            PemFile::RootCert,
            path,
        ),
        root matches PemReadModel::Failed(err) ==> client_plan(tls, root, cert, key)
            == ClientPlan::Fail(
            "SSL root certificate at "@ + path + " could not be read: "@ + err,
        ),
        root matches PemReadModel::Bytes(pem) ==> {
            &&& pem_certificates(pem) matches Err(err) ==> client_plan(tls, root, cert, key)
                == ClientPlan::Fail(
                "SSL root certificate at "@ + path + " is not valid PEM: "@ + error_message(err),
            )
            &&& pem_certificates(pem) == Ok::<_, reqwest::Error>(
                Seq::<reqwest::Certificate>::empty(),
            ) ==> client_plan(tls, root, cert, key) == ClientPlan::Fail(
                "SSL root certificate at "@ + path + " contains no PEM certificate."@,
            )
        },
{
    lemma_labels();
}

/// Once the roots are settled half an identity is refused, with a message that says which half is
/// missing.
pub proof fn law_half_an_identity_is_named(
    tls: TlsModel,
    root: PemReadModel,
    cert: PemReadModel,
    key: PemReadModel,
)
    requires
        roots_settled(tls, root),
    ensures
        tls.client_cert_path is Some && tls.client_key_path is None ==> client_plan(
            tls,
            root,
            cert,
            key,
        ) == ClientPlan::Fail("SSL client certificate needs a matching client key."@),
        tls.client_cert_path is None && tls.client_key_path is Some ==> client_plan(
            tls,
            root,
            cert,
            key,
        ) == ClientPlan::Fail("SSL client key needs a matching client certificate."@),
{
}

/// Once the roots are settled the certificate of an identity is read, then its key, and what fails
/// about either is said with its path.
pub proof fn law_identity_is_read_in_turn(
    tls: TlsModel,
    cert_path: Seq<char>,
    key_path: Seq<char>,
    root: PemReadModel,
    cert: PemReadModel,
    key: PemReadModel,
)
    requires
        roots_settled(tls, root),
        tls.client_cert_path == Some(cert_path),
        tls.client_key_path == Some(key_path),
    ensures
        cert is Unread ==> client_plan(tls, root, cert, key) == ClientPlan::Read(
            PemFile::ClientCert,
            cert_path,
        ),
        cert matches PemReadModel::Failed(err) ==> client_plan(tls, root, cert, key)
            == ClientPlan::Fail(
            "SSL client certificate at "@ + cert_path + " could not be read: "@ + err,
        ),
        cert is Bytes && key is Unread ==> client_plan(tls, root, cert, key) == ClientPlan::Read(
            PemFile::ClientKey,
            key_path,
        ),
        cert is Bytes ==> (key matches PemReadModel::Failed(err) ==> client_plan(
            tls,
            root,
            cert,
            key,
        ) == ClientPlan::Fail("SSL client key at "@ + key_path + " could not be read: "@ + err)),
        cert matches PemReadModel::Bytes(c) ==> (key matches PemReadModel::Bytes(k) ==> (
        pem_identity(joined_pem(c, k)) matches Err(err) ==> client_plan(tls, root, cert, key)
            == ClientPlan::Fail("SSL client identity is not usable: "@ + error_message(err)))),
{
    lemma_labels();
}

/// What is said of a file: its label, and where it is.
proof fn lemma_labels()
    ensures
        "SSL root certificate"@ + " at "@ == "SSL root certificate at "@,
        "SSL client certificate"@ + " at "@ == "SSL client certificate at "@,
        "SSL client key"@ + " at "@ == "SSL client key at "@,
{
    reveal_strlit(" at ");
    reveal_strlit("SSL root certificate");
    reveal_strlit("SSL root certificate at ");
    reveal_strlit("SSL client certificate");
    reveal_strlit("SSL client certificate at ");
    reveal_strlit("SSL client key");
    reveal_strlit("SSL client key at ");
    assert("SSL root certificate"@ + " at "@ =~= "SSL root certificate at "@);
    assert("SSL client certificate"@ + " at "@ =~= "SSL client certificate at "@);
    assert("SSL client key"@ + " at "@ =~= "SSL client key at "@);
}

/// A client is built wherever nothing is in the way: what is named has been read, and read well.
pub proof fn law_client_is_built_where_it_can_be(
    tls: TlsModel,
    root: PemReadModel,
    cert: PemReadModel,
    key: PemReadModel,
)
    requires
        roots_settled(tls, root),
        tls.client_cert_path is None && tls.client_key_path is None || (tls.client_cert_path is Some
            && tls.client_key_path is Some && (cert matches PemReadModel::Bytes(c)
            && key matches PemReadModel::Bytes(k) && pem_identity(joined_pem(c, k)) is Ok)),
    ensures
        client_plan(tls, root, cert, key) is Build,
{
}

/// A certificate and its key make one text: both as they are, with a line break between them where
/// the certificate does not end with one.
pub proof fn law_certificate_and_key_are_joined(cert: Seq<u8>, key: Seq<u8>)
    ensures
        cert.len() > 0 && cert.last() == 10 ==> joined_pem(cert, key) == cert + key,
        cert.len() == 0 || cert.last() != 10 ==> joined_pem(cert, key) == cert + seq![10u8] + key,
{
    assert(cert.push(10) =~= cert + seq![10u8]);
}

/// What came of the certificates, of an identity and of a client is passed on as it is where it is
/// good, and put in words where it is not.
pub proof fn law_outcomes_are_passed_on(
    path: Seq<char>,
    tls: TlsModel,
    certs: Seq<reqwest::Certificate>,
    identity: reqwest::Identity,
    client: reqwest::Client,
    err: Seq<char>,
)
    ensures
        certs.len() > 0 ==> roots_read(path, Ok(certs)) == Ok::<_, Seq<char>>(certs),
        certs.len() == 0 ==> roots_read(path, Ok(certs)) == Err::<Seq<reqwest::Certificate>, _>(
            "SSL root certificate at "@ + path + " contains no PEM certificate."@,
        ),
        roots_read(path, Err(err)) == Err::<Seq<reqwest::Certificate>, _>(
            "SSL root certificate at "@ + path + " is not valid PEM: "@ + err,
        ),
        identity_read(Ok(identity)) == Ok::<_, Seq<char>>(identity),
        identity_read(Err(err)) == Err::<reqwest::Identity, _>(
            "SSL client identity is not usable: "@ + err,
        ),
        client_built(tls, Ok(client)) == Ok::<_, Seq<char>>(client),
        tls.root_cert_path is None && tls.client_cert_path is None && tls.client_key_path is None
            && !tls.accept_invalid_certs ==> client_built(tls, Err(err)) == Err::<
            reqwest::Client,
            _,
        >("HTTP client setup failed: "@ + err),
        tls.root_cert_path is Some || tls.client_cert_path is Some || tls.client_key_path is Some
            || tls.accept_invalid_certs ==> client_built(tls, Err(err)) == Err::<
            reqwest::Client,
            _,
        >("TLS client setup failed: "@ + err),
{
    if tls.root_cert_path is None && tls.client_cert_path is None && tls.client_key_path is None
        && !tls.accept_invalid_certs {
        assert(tls =~= no_tls());
    }
}

/// A step does what the plan says: it asks for the file, fails with the message, or gives a client
/// with the settings. Only where a client was to be built may it fail for another reason.
pub proof fn law_steps_carry_out_plans(tls: TlsModel, plan: ClientPlan, step: ClientStep)
    requires
        carries_out(tls, plan, step),
    ensures
        match plan {
            ClientPlan::Read(file, path) => step matches ClientStep::Read { file: f, path: p } && f
                == file && p@ == path,
            ClientPlan::Fail(message) => step matches ClientStep::Done(Err(e)) && e@ == message,
            ClientPlan::Build(settings) => step matches ClientStep::Done(outcome) && (
            outcome matches Ok(client) ==> client_settings(client) == settings),
        },
{
}

/// A connection that is being made plans for its own configuration and its own files.
pub proof fn law_openings_plan_for_themselves(opening: Opening)
    ensures
        opening.plan() == client_plan(
            opening.config@.tls,
            opening.files.root_cert@,
            opening.files.client_cert@,
            opening.files.client_key@,
        ),
{
}

} // verus!
