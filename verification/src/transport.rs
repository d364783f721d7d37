//! The TLS identity of the listener: the certificate chain and private key
//! that it serves with. They come from two files that the caller names, or
//! from the pair that an earlier start left in the data directory, or they
//! are made here and left there for the next start.
//!
//! Reading and writing files is the caller's part. The provisioner decides,
//! one step at a time, what is to be read, written or made next, from what
//! the step before came to.

use vstd::prelude::*;
use vstd::slice::slice_to_vec;
use crate::error::LinkError;
use vstd::utf8::is_ascii_chars;
use crate::util::{project_dirs, ProjectPaths};

verus! {

/// The host name that a certificate made here is valid for.
pub const LOCAL_IDENTITY: &'static str = "localhost";

/// A file that holds part of an identity.
#[derive(Clone, Copy, Debug, PartialEq, Eq, Hash, Structural)]
pub enum IdentityFile {
    /// The certificate at the path that the caller gave.
    ExplicitCert,
    /// The private key at the path that the caller gave.
    ExplicitKey,
    /// `cert.der` in the data directory.
    CachedCert,
    /// `key.der` in the data directory.
    CachedKey,
}

/// A certificate chain and the private key that belongs to it, both in DER.
#[derive(Debug, PartialEq, Eq)]
pub struct Identity {
    pub cert_chain: Vec<Vec<u8>>,
    pub private_key: Vec<u8>,
}

/// An identity as a mathematical value.
pub struct IdentityView {
    pub cert_chain: Seq<Seq<u8>>,
    pub private_key: Seq<u8>,
}

impl View for Identity {
    type V = IdentityView;

    open spec fn view(&self) -> IdentityView {
        IdentityView {
            cert_chain: Seq::new(self.cert_chain@.len(), |i: int| self.cert_chain@[i]@),
            private_key: self.private_key@,
        }
    }
}

/// The identity of one certificate and its key.
pub open spec fn single(cert: Seq<u8>, key: Seq<u8>) -> IdentityView {
    IdentityView { cert_chain: seq![cert], private_key: key }
}

/// What reading a file came to.
#[derive(Debug, PartialEq, Eq)]
pub enum ReadOutcome {
    /// The file was read; these are its bytes.
    Found(Vec<u8>),
    /// There is no such file.
    Missing,
    /// The file could not be read for another reason.
    Failed,
}

/// What the caller reports of the step it was asked to take.
#[derive(Debug, PartialEq, Eq)]
pub enum Event {
    /// A file was read, or was not.
    Read(ReadOutcome),
    /// A certificate and its private key were made, the certificate first
    /// of the two, or could not be.
    Generated(Option<(Vec<u8>, Vec<u8>)>),
    /// A file was created and written (`true`); or it was there already, or
    /// could not be written (`false`).
    Written(bool),
}

/// An event as a mathematical value.
pub enum EventView {
    Found(Seq<u8>),
    Missing,
    ReadFailed,
    Generated(Seq<u8>, Seq<u8>),
    NotGenerated,
    Written,
    NotWritten,
}

impl View for Event {
    type V = EventView;

    open spec fn view(&self) -> EventView {
        match self {
            Event::Read(ReadOutcome::Found(bytes)) => EventView::Found(bytes@),
            Event::Read(ReadOutcome::Missing) => EventView::Missing,
            Event::Read(ReadOutcome::Failed) => EventView::ReadFailed,
            Event::Generated(Some(pair)) => EventView::Generated(pair.0@, pair.1@),
            Event::Generated(None) => EventView::NotGenerated,
            Event::Written(true) => EventView::Written,
            Event::Written(false) => EventView::NotWritten,
        }
    }
}

/// What the caller is asked to do next.
#[derive(Debug, PartialEq, Eq)]
pub enum Action {
    /// Read this file and report what came of it.
    Read(IdentityFile),
    /// Make a self-signed certificate and report it.
    Generate,
    /// Create this file, which must not be there yet, with these bytes, and
    /// report whether that was done.
    Write(IdentityFile, Vec<u8>),
    /// Serve with this identity. Nothing is left to do.
    Done(Identity),
    /// Give up. Nothing is left to do.
    Fail(LinkError),
}

/// An action as a mathematical value.
pub enum ActionView {
    Read(IdentityFile),
    Generate,
    Write(IdentityFile, Seq<u8>),
    Done(IdentityView),
    Fail(LinkError),
}

impl View for Action {
    type V = ActionView;

    open spec fn view(&self) -> ActionView {
        match self {
            Action::Read(file) => ActionView::Read(*file),
            Action::Generate => ActionView::Generate,
            Action::Write(file, bytes) => ActionView::Write(*file, bytes@),
            Action::Done(identity) => ActionView::Done(identity@),
            Action::Fail(kind) => ActionView::Fail(*kind),
        }
    }
}

/// How far the provisioner has come.
#[derive(Debug, PartialEq, Eq)]
pub enum Stage {
    /// The certificate that the caller named is being read.
    ExplicitCert,
    /// The key that the caller named is being read; this is the certificate.
    ExplicitKey(Vec<u8>),
    /// The cached certificate is being read.
    CachedCert,
    /// The cached key is being read; this is the cached certificate, if
    /// there is one.
    CachedKey(Option<Vec<u8>>),
    /// A certificate and key are being made.
    Generating,
    /// The new certificate is being written; these are certificate and key.
    WritingCert(Vec<u8>, Vec<u8>),
    /// The new key is being written; these are certificate and key.
    WritingKey(Vec<u8>, Vec<u8>),
    /// Nothing is left to do.
    Finished,
}

/// A stage as a mathematical value.
pub enum StageView {
    ExplicitCert,
    ExplicitKey(Seq<u8>),
    CachedCert,
    CachedKey(Option<Seq<u8>>),
    Generating,
    WritingCert(Seq<u8>, Seq<u8>),
    WritingKey(Seq<u8>, Seq<u8>),
    Finished,
}

impl View for Stage {
    type V = StageView;

    open spec fn view(&self) -> StageView {
        match self {
            Stage::ExplicitCert => StageView::ExplicitCert,
            Stage::ExplicitKey(cert) => StageView::ExplicitKey(cert@),
            Stage::CachedCert => StageView::CachedCert,
            Stage::CachedKey(Some(cert)) => StageView::CachedKey(Some(cert@)),
            Stage::CachedKey(None) => StageView::CachedKey(None),
            Stage::Generating => StageView::Generating,
            Stage::WritingCert(cert, key) => StageView::WritingCert(cert@, key@),
            Stage::WritingKey(cert, key) => StageView::WritingKey(cert@, key@),
            Stage::Finished => StageView::Finished,
        }
    }
}

/// Where provisioning starts. With both paths given, the two files are
/// read. Otherwise the cached pair is looked for, also where one path was
/// given without the other.
pub open spec fn initial(cert_given: bool, key_given: bool) -> (StageView, ActionView) {
    if cert_given && key_given {
        (StageView::ExplicitCert, ActionView::Read(IdentityFile::ExplicitCert))
    } else {
        (StageView::CachedCert, ActionView::Read(IdentityFile::CachedCert))
    }
}

/// The end of provisioning in failure.
pub open spec fn failed(kind: LinkError) -> (StageView, ActionView) {
    (StageView::Finished, ActionView::Fail(kind))
}

/// The end of provisioning with an identity.
pub open spec fn done(cert: Seq<u8>, key: Seq<u8>) -> (StageView, ActionView) {
    (StageView::Finished, ActionView::Done(single(cert, key)))
}

/// The stage and the action that follow `event` at `stage`.
///
/// A file that the caller named must be read, or provisioning fails. Of the
/// cached pair both files must be there, and then they are the identity; or
/// neither, and then one is made, its certificate written first, then its
/// key. One file without the other is a failure, and so is a cached file that
/// cannot be read, a certificate that cannot be made, a file that cannot be
/// written, and an event that does not answer the action that was asked for.
pub open spec fn transition(stage: StageView, event: EventView) -> (StageView, ActionView) {
    match (stage, event) {
        (StageView::ExplicitCert, EventView::Found(cert)) => (
            StageView::ExplicitKey(cert),
            ActionView::Read(IdentityFile::ExplicitKey),
        ),
        (StageView::ExplicitKey(cert), EventView::Found(key)) => done(cert, key),
        (StageView::CachedCert, EventView::Found(cert)) => (
            StageView::CachedKey(Some(cert)),
            ActionView::Read(IdentityFile::CachedKey),
        ),
        (StageView::CachedCert, EventView::Missing) => (
            StageView::CachedKey(None),
            ActionView::Read(IdentityFile::CachedKey),
        ),
        (StageView::CachedKey(Some(cert)), EventView::Found(key)) => done(cert, key),
        (StageView::CachedKey(None), EventView::Missing) => (
            StageView::Generating,
            ActionView::Generate,
        ),
        (StageView::Generating, EventView::Generated(cert, key)) => (
            StageView::WritingCert(cert, key),
            ActionView::Write(IdentityFile::CachedCert, cert),
        ),
        (StageView::Generating, _) => failed(LinkError::IdentityGeneration),
        (StageView::WritingCert(cert, key), EventView::Written) => (
            StageView::WritingKey(cert, key),
            ActionView::Write(IdentityFile::CachedKey, key),
        ),
        (StageView::WritingKey(cert, key), EventView::Written) => done(cert, key),
        _ => failed(LinkError::IdentityIO),
    }
}

/// How many steps are left at most before provisioning ends.
pub open spec fn steps_left(stage: StageView) -> nat {
    match stage {
        StageView::ExplicitCert => 2,
        StageView::ExplicitKey(_) => 1,
        StageView::CachedCert => 5,
        StageView::CachedKey(_) => 4,
        StageView::Generating => 3,
        StageView::WritingCert(_, _) => 2,
        StageView::WritingKey(_, _) => 1,
        StageView::Finished => 0,
    }
}

/// An action after which nothing is left to do.
pub open spec fn is_final(action: ActionView) -> bool {
    action is Done || action is Fail
}

/// Provisioning ends, whatever the caller reports: every step brings the end
/// nearer, a final action comes exactly when the last stage is reached, and
/// from there nothing but failure follows.
pub proof fn law_provisioning_ends(stage: StageView, event: EventView)
    ensures
        ({
            let (next_stage, action) = transition(stage, event);
            &&& next_stage is Finished <==> is_final(action)
            &&& !(stage is Finished) ==> steps_left(next_stage) < steps_left(stage)
            &&& stage is Finished ==> next_stage is Finished && action is Fail
        }),
        forall|cert_given: bool, key_given: bool|
            steps_left(#[trigger] initial(cert_given, key_given).0) <= 5,
{
}

/// The files of a data directory and of the paths that a caller may name, as
/// a caller keeps them that does what it is asked and reports truly.
pub type Files = Map<IdentityFile, Seq<u8>>;

/// What such a caller reports of `action`, and the files after it. A file
/// that is there is read; one that is not is missing. A file is written only
/// where none is there yet. `generated` is what making a certificate comes
/// to.
pub open spec fn report(files: Files, action: ActionView, generated: Option<(Seq<u8>, Seq<u8>)>) -> (
    Files,
    EventView,
) {
    match action {
        ActionView::Read(file) => if files.contains_key(file) {
            (files, EventView::Found(files[file]))
        } else {
            (files, EventView::Missing)
        },
        ActionView::Generate => match generated {
            Some(pair) => (files, EventView::Generated(pair.0, pair.1)),
            None => (files, EventView::NotGenerated),
        },
        ActionView::Write(file, bytes) => if files.contains_key(file) {
            (files, EventView::NotWritten)
        } else {
            (files.insert(file, bytes), EventView::Written)
        },
        _ => (files, EventView::NotWritten),
    }
}

/// Provisioning from `stage` on, where `action` was asked for, with that
/// caller: the files at the end and what it ended with. It takes at most
/// `steps` steps.
pub open spec fn run(
    stage: StageView,
    action: ActionView,
    files: Files,
    generated: Option<(Seq<u8>, Seq<u8>)>,
    steps: nat,
) -> (Files, Result<IdentityView, LinkError>)
    decreases steps,
{
    match action {
        ActionView::Done(identity) => (files, Ok(identity)),
        ActionView::Fail(kind) => (files, Err(kind)),
        _ => if steps == 0 {
            (files, Err(LinkError::IdentityIO))
        } else {
            let (files_after, event) = report(files, action, generated);
            let (next_stage, next_action) = transition(stage, event);
            run(next_stage, next_action, files_after, generated, (steps - 1) as nat)
        },
    }
}

/// One whole provisioning with that caller. No provisioning takes more than
/// five steps.
pub open spec fn provision(
    files: Files,
    cert_given: bool,
    key_given: bool,
    generated: Option<(Seq<u8>, Seq<u8>)>,
) -> (Files, Result<IdentityView, LinkError>) {
    let (stage, action) = initial(cert_given, key_given);
    run(stage, action, files, generated, 5)
}

/// With both paths given and both files there, the identity is what the
/// two files hold. Nothing is written, and the cached pair plays no part.
pub proof fn law_explicit_files_win(
    files: Files,
    generated: Option<(Seq<u8>, Seq<u8>)>,
)
    requires
        files.contains_key(IdentityFile::ExplicitCert),
        files.contains_key(IdentityFile::ExplicitKey),
    ensures
        provision(files, true, true, generated) == (
            files,
            Ok::<IdentityView, LinkError>(
                single(files[IdentityFile::ExplicitCert], files[IdentityFile::ExplicitKey]),
            ),
        ),
{
    reveal_with_fuel(run, 3);
}

/// With both paths given, a file that is not there is a failure; no
/// certificate is made in its place.
pub proof fn law_explicit_files_must_exist(
    files: Files,
    generated: Option<(Seq<u8>, Seq<u8>)>,
)
    requires
        !files.contains_key(IdentityFile::ExplicitCert) || !files.contains_key(
            IdentityFile::ExplicitKey,
        ),
    ensures
        provision(files, true, true, generated) == (
            files,
            Err::<IdentityView, LinkError>(LinkError::IdentityIO),
        ),
{
    reveal_with_fuel(run, 3);
}

/// One cached file without the other is a failure, and nothing is written.
pub proof fn law_half_a_pair_fails(
    files: Files,
    cert_given: bool,
    key_given: bool,
    generated: Option<(Seq<u8>, Seq<u8>)>,
)
    requires
        !(cert_given && key_given),
        files.contains_key(IdentityFile::CachedCert) != files.contains_key(
            IdentityFile::CachedKey,
        ),
    ensures
        provision(files, cert_given, key_given, generated) == (
            files,
            Err::<IdentityView, LinkError>(LinkError::IdentityIO),
        ),
{
    reveal_with_fuel(run, 3);
}

/// Caching: where no path is given and no cached file is there, the
/// certificate and key that are made become the identity and are both
/// written. The identity is a chain of that one certificate, with that key.
/// A second provisioning over the files that the first one left makes
/// nothing and writes nothing: it ends with the same identity, byte for
/// byte, whatever making a certificate would come to then.
pub proof fn law_generated_identity_is_cached(
    files: Files,
    cert: Seq<u8>,
    key: Seq<u8>,
    generated_later: Option<(Seq<u8>, Seq<u8>)>,
)
    requires
        !files.contains_key(IdentityFile::CachedCert),
        !files.contains_key(IdentityFile::CachedKey),
    ensures
        ({
            let first = provision(files, false, false, Some((cert, key)));
            let second = provision(first.0, false, false, generated_later);
            &&& first.0 == files.insert(IdentityFile::CachedCert, cert).insert(
                IdentityFile::CachedKey,
                key,
            )
            &&& first.1 == Ok::<IdentityView, LinkError>(single(cert, key))
            &&& second == first
        }),
        single(cert, key).cert_chain.len() == 1,
        single(cert, key).cert_chain[0] == cert,
        single(cert, key).private_key == key,
{
    reveal_with_fuel(run, 6);
}

/// Where no path is given, no cached file is there and no certificate can
/// be made, provisioning fails and writes nothing.
pub proof fn law_generation_failure_is_reported(files: Files)
    requires
        !files.contains_key(IdentityFile::CachedCert),
        !files.contains_key(IdentityFile::CachedKey),
    ensures
        provision(files, false, false, None) == (
            files,
            Err::<IdentityView, LinkError>(LinkError::IdentityGeneration),
        ),
{
    reveal_with_fuel(run, 4);
}

/// `rustls::ServerConfig`, carried from `rustls` to the listener unread.
#[verifier::external_type_specification]
#[verifier::external_body]
pub struct ExServerConfig(rustls::ServerConfig);

/// `rustls::Error`. Nothing is read from it.
#[verifier::external_type_specification]
#[verifier::external_body]
pub struct ExTlsError(rustls::Error);

/// Calls `rcgen::generate_simple_self_signed` for one host name and writes
/// out what it made with `serialize_der` and `serialize_private_key_der`:
/// the certificate and the private key, both in DER. The key is new each
/// time, so the bytes are not stated; neither of the two is empty, as no DER
/// is. `None` where `rcgen` fails. The host name goes into the certificate
/// as an IA5 string, which is written only of ASCII text.
#[verifier::external_body]
fn self_signed(host: &str) -> (pair: Option<(Vec<u8>, Vec<u8>)>)
    requires
        is_ascii_chars(host@),
    ensures
        pair matches Some(made) ==> made.0@.len() > 0 && made.1@.len() > 0,
{
    let made = rcgen::generate_simple_self_signed(vec![host.to_string()]).ok()?;
    let cert = made.serialize_der().ok()?;
    Some((cert, made.serialize_private_key_der()))
}

/// Builds a `rustls::ServerConfig` with the safe defaults, without client
/// authentication, and with `identity` as its one certificate chain and
/// key. `rustls` refuses a key that it cannot read; in reading one it also
/// asks the system for random bytes, so the key alone does not decide
/// whether the call succeeds, and nothing is stated of the result.
#[verifier::external_body]
fn tls_config(identity: &Identity) -> (r: Result<rustls::ServerConfig, rustls::Error>) {
    let chain = identity.cert_chain.iter().map(|cert| rustls::Certificate(cert.clone())).collect();
    rustls::ServerConfig::builder()
        .with_safe_defaults()
        .with_no_client_auth()
        .with_single_cert(chain, rustls::PrivateKey(identity.private_key.clone()))
}

/// The directory that holds the cached pair, of the directories that the
/// platform names: the one for data that stays on this machine.
pub fn cache_dir_of(paths: Option<ProjectPaths>) -> (dir: Option<String>)
    ensures
        match paths {
            Some(p) => dir matches Some(d) && d@ == p.data_local_dir@,
            None => dir is None,
        },
{
    match paths {
        Some(p) => Some(p.data_local_dir),
        None => None,
    }
}

/// The directory that holds the cached pair, where the platform names one.
/// It is not the empty path.
pub fn identity_cache_dir() -> (dir: Option<String>)
    ensures
        dir matches Some(path) ==> path@.len() > 0,
{
    cache_dir_of(project_dirs())
}

/// Makes a self-signed certificate for the local identity, and reports it as
/// the answer to `Action::Generate`: a certificate and a key, neither of
/// them empty, or that none could be made.
pub fn generate_identity() -> (event: Event)
    ensures
        event is Generated,
        event@ matches EventView::Generated(cert, key) ==> cert.len() > 0 && key.len() > 0,
{
    proof {
        reveal_strlit("localhost");
    }
    Event::Generated(self_signed(LOCAL_IDENTITY))
}

/// The server configuration that serves with `identity`, or `None` where
/// `rustls` makes none, as it does of a key that it cannot read.
pub fn server_config(identity: &Identity) -> (config: Option<rustls::ServerConfig>) {
    match tls_config(identity) {
        Ok(config) => Some(config),
        Err(_) => None,
    }
}

/// The name of a cached file in the data directory. The files that the
/// caller names have no name of their own.
pub fn cache_file_name(file: IdentityFile) -> (name: Option<&'static str>)
    ensures
        match file {
            IdentityFile::CachedCert => name matches Some(n) && n@ == "cert.der"@,
            IdentityFile::CachedKey => name matches Some(n) && n@ == "key.der"@,
            _ => name is None,
        },
{
    match file {
        IdentityFile::CachedCert => Some("cert.der"),
        IdentityFile::CachedKey => Some("key.der"),
        _ => None,
    }
}

/// The decisions of one provisioning, from its start to `Done` or `Fail`.
#[derive(Debug)]
pub struct Provisioner {
    stage: Stage,
}

impl View for Provisioner {
    type V = StageView;

    closed spec fn view(&self) -> StageView {
        self.stage@
    }
}

/// The identity made of one certificate and its key.
fn single_identity(cert: Vec<u8>, key: Vec<u8>) -> (identity: Identity)
    ensures
        identity@ == single(cert@, key@),
{
    let mut cert_chain: Vec<Vec<u8>> = Vec::new();
    cert_chain.push(cert);
    let identity = Identity { cert_chain, private_key: key };
    assert(identity@.cert_chain =~= seq![cert@]);
    identity
}

/// The end of provisioning in failure.
fn fail(kind: LinkError) -> (r: (Provisioner, Action))
    ensures
        (r.0@, r.1@) == failed(kind),
{
    (Provisioner { stage: Stage::Finished }, Action::Fail(kind))
}

/// The end of provisioning with an identity.
fn finish(cert: Vec<u8>, key: Vec<u8>) -> (r: (Provisioner, Action))
    ensures
        (r.0@, r.1@) == done(cert@, key@),
{
    (Provisioner { stage: Stage::Finished }, Action::Done(single_identity(cert, key)))
}

impl Provisioner {
    /// Begins provisioning. `cert_given` and `key_given` say whether the
    /// caller named a certificate file and a key file.
    pub fn start(cert_given: bool, key_given: bool) -> (r: (Provisioner, Action))
        ensures
            (r.0@, r.1@) == initial(cert_given, key_given),
    {
        if cert_given && key_given {
            (
                Provisioner { stage: Stage::ExplicitCert },
                Action::Read(IdentityFile::ExplicitCert),
            )
        } else {
            (Provisioner { stage: Stage::CachedCert }, Action::Read(IdentityFile::CachedCert))
        }
    }

    /// Takes the report of the action that was asked for last, and asks for
    /// the next.
    pub fn advance(self, event: Event) -> (r: (Provisioner, Action))
        ensures
            (r.0@, r.1@) == transition(self@, event@),
    {
        match self.stage {
            Stage::ExplicitCert => match event {
                Event::Read(ReadOutcome::Found(cert)) => (
                    Provisioner { stage: Stage::ExplicitKey(cert) },
                    Action::Read(IdentityFile::ExplicitKey),
                ),
                _ => fail(LinkError::IdentityIO),
            },
            Stage::ExplicitKey(cert) => match event {
                Event::Read(ReadOutcome::Found(key)) => finish(cert, key),
                _ => fail(LinkError::IdentityIO),
            },
            Stage::CachedCert => match event {
                Event::Read(ReadOutcome::Found(cert)) => (
                    Provisioner { stage: Stage::CachedKey(Some(cert)) },
                    Action::Read(IdentityFile::CachedKey),
                ),
                Event::Read(ReadOutcome::Missing) => (
                    Provisioner { stage: Stage::CachedKey(None) },
                    Action::Read(IdentityFile::CachedKey),
                ),
                _ => fail(LinkError::IdentityIO),
            },
            Stage::CachedKey(Some(cert)) => match event {
                Event::Read(ReadOutcome::Found(key)) => finish(cert, key),
                _ => fail(LinkError::IdentityIO),
            },
            Stage::CachedKey(None) => match event {
                Event::Read(ReadOutcome::Missing) => (
                    Provisioner { stage: Stage::Generating },
                    Action::Generate,
                ),
                _ => fail(LinkError::IdentityIO),
            },
            Stage::Generating => match event {
                Event::Generated(Some(pair)) => {
                    let (cert, key) = pair;
                    let bytes = slice_to_vec(cert.as_slice());
                    (
                        Provisioner { stage: Stage::WritingCert(cert, key) },
                        Action::Write(IdentityFile::CachedCert, bytes),
                    )
                },
                _ => fail(LinkError::IdentityGeneration),
            },
            Stage::WritingCert(cert, key) => match event {
                Event::Written(true) => {
                    let bytes = slice_to_vec(key.as_slice());
                    (
                        Provisioner { stage: Stage::WritingKey(cert, key) },
                        Action::Write(IdentityFile::CachedKey, bytes),
                    )
                },
                _ => fail(LinkError::IdentityIO),
            },
            Stage::WritingKey(cert, key) => match event {
                Event::Written(true) => finish(cert, key),
                _ => fail(LinkError::IdentityIO),
            },
            Stage::Finished => fail(LinkError::IdentityIO),
        }
    }
}

} // verus!
