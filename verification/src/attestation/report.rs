//! Collecting an appraisal: fresh evidence from the sandbox, and what the trustee makes of it.

use vstd::prelude::*;
use rand::RngCore;
use crate::appraisal::GetSandboxAttestationResponse;
use crate::attestation::claims::{AppraisalError, MAX_POLICY_ID_BYTES};
use crate::attestation::reference;
use crate::attestation::reference::{
    all_acceptable, displayable, keeps, lists, normalizes, refuses,
};
use crate::attestation::trustee;
use crate::attestation::trustee::{
    attestation_url, key_fault, url_parts, vouched, AppraisalKey,
};
use crate::config::file::AttestationReportFileConfig;
use crate::encoding;
use crate::encoding::base64_text;
use crate::text;
use crate::text::{all_together, decimal_of, texts, trimmed, unsigned_value};
use crate::text_map::TextMap;

verus! {

/// The most evidence that is taken from a sandbox.
pub const MAX_EVIDENCE_BYTES: usize = 262144;

/// The longest answer that is taken from a trustee.
pub const MAX_EAR_BYTES: usize = 262144;

/// The largest file of reference values.
pub const MAX_REFERENCE_BYTES: u64 = 65536;

/// The largest file that holds a public key.
pub const MAX_PUBLIC_KEY_BYTES: u64 = 16384;

/// What reading a file came to. No more is read of it than a byte beyond the bound.
#[derive(Debug)]
pub enum FileRead {
    /// It could not be opened.
    NotOpened(String),
    /// Nothing could be learnt of it.
    NotInspected(String),
    /// It was opened: whether it is a regular file, how long it is said to be, and what reading
    /// it gave. A file that is not to be read counts as empty here.
    Opened { regular: bool, len: u64, contents: Result<Vec<u8>, String> },
}

/// Whether a file that was opened is to be read: only a regular one, and only where it is not said
/// to be larger than `max`.
pub fn is_to_be_read(regular: bool, len: u64, max: u64) -> (yes: bool)
    ensures
        yes == (regular && len <= max),
{
    regular && len <= max
}

/// A file's name behind what it is for.
pub open spec fn labelled(label: Seq<char>, path: Seq<char>) -> Seq<char> {
    label + " "@ + path
}

/// The contents of a file, where it is a regular one and not larger than `max`.
pub open spec fn bounded(path: Seq<char>, max: u64, label: Seq<char>, file: FileRead) -> Result<
    Seq<u8>,
    Seq<char>,
> {
    let name = labelled(label, path);
    let too_large = name + " exceeds "@ + decimal_of(max as nat) + " bytes"@;
    match file {
        FileRead::NotOpened(reason) => Err("failed to open "@ + name + ": "@ + reason@),
        FileRead::NotInspected(reason) => Err("failed to inspect "@ + name + ": "@ + reason@),
        FileRead::Opened { regular, len, contents } => if !regular {
            Err(name + " must be a regular file"@)
        } else if len > max {
            Err(too_large)
        } else {
            match contents {
                Err(reason) => Err("failed to read "@ + name + ": "@ + reason@),
                Ok(bytes) => if bytes@.len() > max {
                    Err(too_large)
                } else {
                    Ok(bytes@)
                },
            }
        },
    }
}

fn failed_to(what: &str, name: &str, reason: &str) -> (message: String)
    ensures
        message@ == what@ + name@ + ": "@ + reason@,
{
    let mut message = all_together(what, name, ": ");
    message.append(reason);
    message
}

fn too_large(name: &str, max: u64) -> (message: String)
    ensures
        message@ == name@ + " exceeds "@ + decimal_of(max as nat) + " bytes"@,
{
    let mut message = all_together(name, " exceeds ", text::decimal(max).as_str());
    message.append(" bytes");
    message
}

/// The contents of a file, where it is a regular one and not larger than `max`.
pub fn read_bounded_file(path: &str, max: u64, label: &str, file: FileRead) -> (result: Result<
    Vec<u8>,
    String,
>)
    ensures
        match bounded(path@, max, label@, file) {
            Ok(bytes) => result matches Ok(v) && v@ == bytes,
            Err(reason) => result matches Err(e) && e@ == reason,
        },
{
    let name = all_together(label, " ", path);
    match file {
        FileRead::NotOpened(reason) => Err(
            failed_to("failed to open ", name.as_str(), reason.as_str()),
        ),
        FileRead::NotInspected(reason) => Err(
            failed_to("failed to inspect ", name.as_str(), reason.as_str()),
        ),
        FileRead::Opened { regular, len, contents } => {
            if !regular {
                return Err(text::together(name.as_str(), " must be a regular file"));
            }
            if len > max {
                return Err(too_large(name.as_str(), max));
            }
            match contents {
                Err(reason) => Err(failed_to("failed to read ", name.as_str(), reason.as_str())),
                Ok(bytes) => if bytes.len() as u64 > max {
                    Err(too_large(name.as_str(), max))
                } else {
                    Ok(bytes)
                },
            }
        },
    }
}

/// What is in a file that is not to be read makes no difference.
pub proof fn lemma_unread_contents_do_not_matter(
    path: Seq<char>,
    max: u64,
    label: Seq<char>,
    regular: bool,
    len: u64,
    contents: Result<Vec<u8>, String>,
    others: Result<Vec<u8>, String>,
)
    requires
        !(regular && len <= max),
    ensures
        bounded(path, max, label, FileRead::Opened { regular, len, contents }) == bounded(
            path,
            max,
            label,
            FileRead::Opened { regular, len, contents: others },
        ),
        bounded(path, max, label, FileRead::Opened { regular, len, contents }) is Err,
{
}

/// The texts beside each of several keys.
pub open spec fn pair_views(pairs: Seq<(String, Vec<String>)>) -> Seq<
    (Seq<char>, Seq<Seq<char>>),
> {
    pairs.map_values(|pair: (String, Vec<String>)| (pair.0@, texts(pair.1@)))
}

/// What `serde_json::from_slice` reads in a file of reference values: lists of texts under keys,
/// or why they cannot be read.
pub uninterp spec fn references_in(bytes: Seq<u8>) -> Result<
    Seq<(Seq<char>, Seq<Seq<char>>)>,
    Seq<char>,
>;

/// `serde_json::from_slice` into a map from texts to lists of texts, in the order of its keys.
/// What it reads depends on the bytes alone.
#[verifier::external_body]
fn parse_references(bytes: &Vec<u8>) -> (result: Result<Vec<(String, Vec<String>)>, String>)
    ensures
        match references_in(bytes@) {
            Ok(views) => result matches Ok(pairs) && pair_views(pairs@) == views,
            Err(reason) => result matches Err(e) && e@ == reason,
        },
{
    match serde_json::from_slice::<std::collections::BTreeMap<String, Vec<String>>>(bytes) {
        Ok(references) => Ok(references.into_iter().collect()),
        Err(e) => Err(e.to_string()),
    }
}

/// The map from the keys of `pairs`; of several pairs with one key the last counts.
pub open spec fn map_of(pairs: Seq<(Seq<char>, Seq<Seq<char>>)>) -> Map<
    Seq<char>,
    Seq<Seq<char>>,
>
    decreases pairs.len(),
{
    if pairs.len() == 0 {
        Map::empty()
    } else {
        map_of(pairs.drop_last()).insert(pairs.last().0, pairs.last().1)
    }
}

fn collect_references(pairs: &Vec<(String, Vec<String>)>) -> (references: TextMap<Vec<String>>)
    ensures
        lists(references@) == map_of(pair_views(pairs@)),
{
    let mut references: TextMap<Vec<String>> = TextMap::new();
    let ghost all = pair_views(pairs@);
    let n: usize = pairs.len();
    let mut i: usize = 0;
    proof {
        assert(all.take(0) =~= Seq::empty());
        assert(lists(references@) =~= Map::empty());
    }
    while i < n
        invariant
            i <= n,
            n == pairs@.len(),
            all == pair_views(pairs@),
            lists(references@) == map_of(all.take(i as int)),
        decreases n - i,
    {
        let ghost before = references@;
        let values = text::copy_texts(&pairs[i].1);
        references.insert(pairs[i].0.clone(), values);
        proof {
            assert(all.take(i as int + 1).drop_last() =~= all.take(i as int));
            assert(lists(references@) =~= lists(before).insert(
                all[i as int].0,
                all[i as int].1,
            ));
        }
        i = i + 1;
    }
    assert(all.take(n as int) =~= all);
    references
}

/// What every appraisal is made with.
pub struct AttestationReporter {
    /// Where the trustee appraises evidence.
    pub trustee_attestation_url: String,
    /// The policy that it is asked to appraise by.
    pub policy_id: String,
    /// The digests that boot components are expected to have.
    pub references: TextMap<Vec<String>>,
    /// The key that appraisals are signed with.
    pub decoding_key: AppraisalKey,
}

/// Whether an error has the given words.
pub open spec fn fails<T>(result: Result<T, String>, message: Seq<char>) -> bool {
    result matches Err(e) && e@ == message
}

/// What a configuration comes to once its URL and its policy are taken.
pub open spec fn configures_files(
    config: AttestationReportFileConfig,
    reference_file: FileRead,
    key_file: FileRead,
    url: Seq<char>,
    result: Result<AttestationReporter, String>,
) -> bool {
    match bounded(
        config.reference_values_path@,
        MAX_REFERENCE_BYTES,
        "reference values"@,
        reference_file,
    ) {
        Err(message) => fails(result, message),
        Ok(bytes) => match references_in(bytes) {
            Err(reason) => fails(
                result,
                "failed to parse attestation reference values "@ + config.reference_values_path@
                    + ": "@ + reason,
            ),
            Ok(pairs) => if !all_acceptable(map_of(pairs)) {
                result matches Err(e) && refuses(map_of(pairs), e@)
            } else {
                match bounded(
                    config.as_public_key_path@,
                    MAX_PUBLIC_KEY_BYTES,
                    "attestation-service public key"@,
                    key_file,
                ) {
                    Err(message) => fails(result, message),
                    Ok(pem) => match key_fault(pem) {
                        Some(reason) => fails(
                            result,
                            "failed to parse attestation-service EC public key "@
                                + config.as_public_key_path@ + ": "@ + reason,
                        ),
                        None => result matches Ok(reporter) && {
                            &&& reporter.trustee_attestation_url@ == url
                            &&& reporter.policy_id@ == trimmed(config.policy_id@)
                            &&& keeps(map_of(pairs), lists(reporter.references@))
                            &&& reporter.decoding_key.pem() == pem
                        },
                    },
                }
            },
        },
    }
}

/// What a reporter's configuration, with what its two files hold, comes to.
pub open spec fn configures(
    config: AttestationReportFileConfig,
    reference_file: FileRead,
    key_file: FileRead,
    result: Result<AttestationReporter, String>,
) -> bool {
    match attestation_url(url_parts(config.trustee_url@), config.trustee_url@) {
        Err(message) => fails(result, message),
        Ok(url) => if !displayable(trimmed(config.policy_id@), MAX_POLICY_ID_BYTES) {
            fails(
                result,
                "attestation_report.policy_id"@ + " must contain 1..="@ + decimal_of(
                    MAX_POLICY_ID_BYTES as nat,
                ) + " printable ASCII bytes"@,
            )
        } else {
            configures_files(config, reference_file, key_file, url, result)
        },
    }
}

impl AttestationReporter {
    /// What appraisals are made with, by a configuration, given what reading its two files came
    /// to. Whatever is not in order is reported: the URL first, and then the policy, the
    /// reference values and the key.
    pub fn from_config(
        config: &AttestationReportFileConfig,
        reference_file: FileRead,
        key_file: FileRead,
    ) -> (result: Result<Self, String>)
        ensures
            configures(*config, reference_file, key_file, result),
    {
        let trustee_attestation_url = match trustee::trustee_attestation_url(
            config.trustee_url.as_str(),
        ) {
            Ok(url) => url,
            Err(message) => return Err(message),
        };
        let policy_id = match reference::validate_display_text(
            text::trim(config.policy_id.as_str()),
            MAX_POLICY_ID_BYTES,
            "attestation_report.policy_id",
        ) {
            Ok(id) => id,
            Err(message) => return Err(message),
        };
        let references = match AttestationReporter::load_references(config, reference_file) {
            Ok(references) => references,
            Err(message) => return Err(message),
        };
        let pem = match read_bounded_file(
            config.as_public_key_path.as_str(),
            MAX_PUBLIC_KEY_BYTES,
            "attestation-service public key",
            key_file,
        ) {
            Ok(pem) => pem,
            Err(message) => return Err(message),
        };
        match AppraisalKey::from_ec_pem(pem) {
            Ok(decoding_key) => Ok(
                AttestationReporter { trustee_attestation_url, policy_id, references, decoding_key },
            ),
            Err(reason) => Err(
                failed_to(
                    "failed to parse attestation-service EC public key ",
                    config.as_public_key_path.as_str(),
                    reason.as_str(),
                ),
            ),
        }
    }

    fn load_references(config: &AttestationReportFileConfig, file: FileRead) -> (result: Result<
        TextMap<Vec<String>>,
        String,
    >)
        ensures
            match bounded(
                config.reference_values_path@,
                MAX_REFERENCE_BYTES,
                "reference values"@,
                file,
            ) {
                Err(message) => fails(result, message),
                Ok(bytes) => match references_in(bytes) {
                    Err(reason) => fails(
                        result,
                        "failed to parse attestation reference values "@
                            + config.reference_values_path@ + ": "@ + reason,
                    ),
                    Ok(pairs) => normalizes(map_of(pairs), result),
                },
            },
    {
        let bytes = match read_bounded_file(
            config.reference_values_path.as_str(),
            MAX_REFERENCE_BYTES,
            "reference values",
            file,
        ) {
            Ok(bytes) => bytes,
            Err(message) => return Err(message),
        };
        match parse_references(&bytes) {
            Ok(pairs) => {
                let references = collect_references(&pairs);
                reference::normalize_references(&references)
            },
            Err(reason) => Err(
                failed_to(
                    "failed to parse attestation reference values ",
                    config.reference_values_path.as_str(),
                    reason.as_str(),
                ),
            ),
        }
    }
}

/// The request by which a sandbox gives evidence for a nonce.
pub open spec fn evidence_request(nonce: Seq<u8>) -> Seq<char> {
    "/aa/evidence?runtime_data="@ + base64_text(nonce, true) + "&encoding=base64"@
}

/// The request by which a sandbox gives evidence for a nonce.
pub fn evidence_path(nonce: &[u8; 32]) -> (path: String)
    ensures
        path@ == evidence_request(nonce@),
{
    all_together(
        "/aa/evidence?runtime_data=",
        encoding::base64_url(nonce.as_slice()).as_str(),
        "&encoding=base64",
    )
}

/// An answer that is read piece by piece and may not grow beyond a bound.
pub struct BoundedBody {
    bytes: Vec<u8>,
    max: usize,
}

impl BoundedBody {
    /// What was read.
    pub closed spec fn bytes(self) -> Seq<u8> {
        self.bytes@
    }

    /// The bound.
    pub closed spec fn max(self) -> usize {
        self.max
    }

    /// Whether what was read keeps the bound.
    pub open spec fn wf(self) -> bool {
        self.bytes().len() <= self.max()
    }

    /// An answer of which nothing was read; nothing where it says that it is too long.
    pub fn begin(announced: Option<u64>, max: usize) -> (body: Option<Self>)
        ensures
            match announced {
                Some(length) if length > max => body is None,
                _ => body matches Some(b) && b.bytes() == Seq::<u8>::empty() && b.max() == max
                    && b.wf(),
            },
    {
        match announced {
            Some(length) if length > max as u64 => None,
            _ => Some(BoundedBody { bytes: Vec::new(), max }),
        }
    }

    /// Takes one more piece, where it keeps the bound.
    pub fn push(&mut self, piece: &[u8]) -> (taken: bool)
        requires
            old(self).wf(),
        ensures
            taken == (old(self).bytes().len() + piece@.len() <= old(self).max()),
            taken ==> final(self).bytes() == old(self).bytes() + piece@,
            !taken ==> final(self).bytes() == old(self).bytes(),
            final(self).max() == old(self).max(),
            final(self).wf(),
    {
        if piece.len() > self.max - self.bytes.len() {
            return false;
        }
        self.bytes.extend_from_slice(piece);
        true
    }

    /// What was read.
    pub fn into_bytes(self) -> (bytes: Vec<u8>)
        ensures
            bytes@ == self.bytes(),
    {
        self.bytes
    }
}

/// The length that evidence is announced with, where the announcement can be read.
pub open spec fn announced_length(header: Option<Seq<char>>) -> Option<int> {
    match header {
        Some(value) => match unsigned_value(value) {
            Some(n) if n <= usize::MAX => Some(n),
            _ => None,
        },
        None => None,
    }
}

/// Evidence of which nothing was read, given what the answer says of its length.
pub fn begin_evidence(content_length: Option<&str>) -> (result: Result<BoundedBody, AppraisalError>)
    ensures
        match announced_length(
            match content_length {
                Some(value) => Some(value@),
                None => None,
            },
        ) {
            Some(length) if length > MAX_EVIDENCE_BYTES => result == Err::<
                BoundedBody,
                AppraisalError,
            >(AppraisalError::EvidenceCollection),
            _ => result matches Ok(body) && body.bytes() == Seq::<u8>::empty() && body.max()
                == MAX_EVIDENCE_BYTES && body.wf(),
        },
{
    let announced = match content_length {
        Some(value) => match text::parse_usize(value) {
            Some(length) => Some(length as u64),
            None => None,
        },
        None => None,
    };
    match BoundedBody::begin(announced, MAX_EVIDENCE_BYTES) {
        Some(body) => Ok(body),
        None => Err(AppraisalError::EvidenceCollection),
    }
}

/// The evidence that was read; there must be some.
pub fn finish_evidence(body: BoundedBody) -> (result: Result<Vec<u8>, AppraisalError>)
    ensures
        if body.bytes().len() == 0 {
            result == Err::<Vec<u8>, AppraisalError>(AppraisalError::EvidenceCollection)
        } else {
            result matches Ok(bytes) && bytes@ == body.bytes()
        },
{
    let bytes = body.into_bytes();
    if bytes.len() == 0 {
        return Err(AppraisalError::EvidenceCollection);
    }
    Ok(bytes)
}

/// What a trustee is asked.
#[derive(Debug)]
pub struct TrusteeRequest {
    /// The sort of evidence.
    pub tee: String,
    /// The evidence, in the base 64 of URLs.
    pub evidence: String,
    /// The nonce, in the base 64 of URLs.
    pub runtime_data: String,
    /// The policy to appraise by.
    pub policy_id: String,
}

impl TrusteeRequest {
    /// Whether this asks for an appraisal of `evidence` for `nonce` by `policy`.
    pub open spec fn asks(self, evidence: Seq<u8>, nonce: Seq<u8>, policy: Seq<char>) -> bool {
        &&& self.tee@ == "tdx"@
        &&& self.evidence@ == base64_text(evidence, true)
        &&& self.runtime_data@ == base64_text(nonce, true)
        &&& self.policy_id@ == policy
    }
}

/// The token in a trustee's answer, without the white space around it.
pub open spec fn answered_token(body: Seq<u8>) -> Option<Seq<char>> {
    if vstd::utf8::valid_utf8(body) && trimmed(vstd::utf8::decode_utf8(body)).len() > 0 {
        Some(trimmed(vstd::utf8::decode_utf8(body)))
    } else {
        None
    }
}

/// The token in a trustee's answer.
pub fn trustee_token(body: &Vec<u8>) -> (result: Result<String, AppraisalError>)
    ensures
        match answered_token(body@) {
            Some(token) => result matches Ok(t) && t@ == token,
            None => result == Err::<String, AppraisalError>(AppraisalError::InvalidAppraisal),
        },
{
    match text::utf8_text(body.as_slice()) {
        Some(s) => {
            let token = text::trim(s);
            if token.is_empty() {
                Err(AppraisalError::InvalidAppraisal)
            } else {
                Ok(token.to_string())
            }
        },
        None => Err(AppraisalError::InvalidAppraisal),
    }
}

/// How far collecting an appraisal has come.
pub enum CollectState {
    /// It begins.
    Start,
    /// A relay to the sandbox is being opened, in the session that is named.
    Opening(String),
    /// The sandbox is asked for evidence.
    Evidence(String),
    /// The trustee is asked.
    Trustee(String),
    /// There is an appraisal; the session must still be the one in which it was collected.
    Confirming(String, GetSandboxAttestationResponse),
    /// It has ended.
    Done,
}

/// What comes back from outside.
pub enum CollectEvent {
    /// The sandbox's session, where it has one.
    Session(Option<String>),
    /// Whether the relay is open.
    Relay(bool),
    /// The evidence.
    Evidence(Result<Vec<u8>, AppraisalError>),
    /// The trustee's token.
    Token(Result<String, AppraisalError>),
    /// Whether the session is still current.
    Current(bool),
}

/// What is to be done next.
pub enum CollectAction {
    /// Open a relay to the sandbox.
    OpenRelay,
    /// Make this request to the sandbox.
    RequestEvidence(String),
    /// Make this request to the trustee.
    RequestTrustee(TrusteeRequest),
    /// See whether this session is still current.
    CheckSession(String),
    /// Report the outcome.
    Report(Result<GetSandboxAttestationResponse, AppraisalError>),
    /// Nothing: what came back belongs to another step.
    Nothing,
}

/// `rand::rng().fill_bytes`: 32 bytes that nobody can foresee. Nothing is said of what they are.
#[verifier::external_body]
fn random_bytes() -> (bytes: [u8; 32]) {
    let mut bytes = [0u8; 32];
    rand::rng().fill_bytes(&mut bytes);
    bytes
}

/// Begins to collect an appraisal, with a fresh nonce.
pub fn begin_collecting() -> (begun: (CollectState, [u8; 32]))
    ensures
        begun.0 is Start,
{
    (CollectState::Start, random_bytes())
}

/// Whether collecting ends with `error`.
pub open spec fn ends_with(next: CollectState, action: CollectAction, error: AppraisalError) -> bool {
    next is Done && action == CollectAction::Report(Err(error))
}

impl AttestationReporter {
    /// Whether `appraisal` is what some token signed with the trustee's key says for `nonce`.
    pub open spec fn vouches(self, nonce: Seq<u8>, appraisal: GetSandboxAttestationResponse) -> bool {
        exists|token: Seq<char>| #[trigger]
            vouched(
                token,
                self.decoding_key.pem(),
                nonce,
                lists(self.references@),
                self.policy_id@,
                appraisal@,
            )
    }

    /// Whether an appraisal that waits to be confirmed is vouched for.
    pub open spec fn sound(self, state: CollectState, nonce: Seq<u8>) -> bool {
        state matches CollectState::Confirming(_, appraisal) ==> self.vouches(nonce, appraisal)
    }

    /// What follows when `event` comes back in `state`.
    pub open spec fn follows(
        self,
        state: CollectState,
        event: CollectEvent,
        nonce: Seq<u8>,
        next: CollectState,
        action: CollectAction,
    ) -> bool {
        match (state, event) {
            (CollectState::Start, CollectEvent::Session(session)) => match session {
                Some(id) => next == CollectState::Opening(id) && action is OpenRelay,
                None => ends_with(next, action, AppraisalError::RelayUnavailable),
            },
            (CollectState::Opening(id), CollectEvent::Relay(open)) => if open {
                &&& next == CollectState::Evidence(id)
                &&& action matches CollectAction::RequestEvidence(path)
                &&& path@ == evidence_request(nonce)
            } else {
                ends_with(next, action, AppraisalError::RelayUnavailable)
            },
            (CollectState::Evidence(id), CollectEvent::Evidence(evidence)) => match evidence {
                Ok(bytes) => {
                    &&& next == CollectState::Trustee(id)
                    &&& action matches CollectAction::RequestTrustee(request)
                    &&& request.asks(bytes@, nonce, self.policy_id@)
                },
                Err(error) => ends_with(next, action, error),
            },
            (CollectState::Trustee(id), CollectEvent::Token(token)) => match token {
                Ok(token) => {
                    ||| ends_with(next, action, AppraisalError::InvalidAppraisal)
                    ||| {
                        &&& next matches CollectState::Confirming(session, appraisal)
                        &&& session == id
                        &&& vouched(
                            token@,
                            self.decoding_key.pem(),
                            nonce,
                            lists(self.references@),
                            self.policy_id@,
                            appraisal@,
                        )
                        &&& action matches CollectAction::CheckSession(check)
                        &&& check@ == id@
                    }
                },
                Err(error) => ends_with(next, action, error),
            },
            (CollectState::Confirming(id, appraisal), CollectEvent::Current(current)) => if current {
                next is Done && action == CollectAction::Report(Ok(appraisal))
            } else {
                ends_with(next, action, AppraisalError::RelayUnavailable)
            },
            (state, _) => next == state && action is Nothing,
        }
    }

    /// Takes what came back from outside, and says what is to be done next. Whether a token is
    /// taken rests on the clock as well, for it may have expired.
    pub fn collect(
        &self,
        state: CollectState,
        event: CollectEvent,
        nonce: &[u8; 32],
    ) -> (step: (CollectState, CollectAction))
        ensures
            self.follows(state, event, nonce@, step.0, step.1),
    {
        match (state, event) {
            (CollectState::Start, CollectEvent::Session(session)) => match session {
                Some(id) => (CollectState::Opening(id), CollectAction::OpenRelay),
                None => AttestationReporter::end(AppraisalError::RelayUnavailable),
            },
            (CollectState::Opening(id), CollectEvent::Relay(open)) => if open {
                (
                    CollectState::Evidence(id),
                    CollectAction::RequestEvidence(evidence_path(nonce)),
                )
            } else {
                AttestationReporter::end(AppraisalError::RelayUnavailable)
            },
            (CollectState::Evidence(id), CollectEvent::Evidence(evidence)) => match evidence {
                Ok(bytes) => {
                    let request = self.request_trustee(&bytes, nonce);
                    (CollectState::Trustee(id), CollectAction::RequestTrustee(request))
                },
                Err(error) => AttestationReporter::end(error),
            },
            (CollectState::Trustee(id), CollectEvent::Token(token)) => match token {
                Ok(token) => match trustee::verify_ear(
                    token.as_str(),
                    nonce,
                    &self.decoding_key,
                    &self.references,
                    self.policy_id.as_str(),
                ) {
                    Ok(appraisal) => {
                        let check = id.clone();
                        (
                            CollectState::Confirming(id, appraisal),
                            CollectAction::CheckSession(check),
                        )
                    },
                    Err(error) => AttestationReporter::end(error),
                },
                Err(error) => AttestationReporter::end(error),
            },
            (CollectState::Confirming(id, appraisal), CollectEvent::Current(current)) => if current {
                (CollectState::Done, CollectAction::Report(Ok(appraisal)))
            } else {
                AttestationReporter::end(AppraisalError::RelayUnavailable)
            },
            (state, _) => (state, CollectAction::Nothing),
        }
    }

    fn end(error: AppraisalError) -> (step: (CollectState, CollectAction))
        ensures
            ends_with(step.0, step.1, error),
    {
        (CollectState::Done, CollectAction::Report(Err(error)))
    }

    /// What the trustee is asked of evidence for a nonce.
    pub fn request_trustee(&self, evidence: &Vec<u8>, nonce: &[u8; 32]) -> (request: TrusteeRequest)
        ensures
            request.asks(evidence@, nonce@, self.policy_id@),
    {
        TrusteeRequest {
            tee: "tdx".to_string(),
            evidence: encoding::base64_url(evidence.as_slice()),
            runtime_data: encoding::base64_url(nonce.as_slice()),
            policy_id: self.policy_id.clone(),
        }
    }

    /// An appraisal is reported only if the trustee's key vouches for it, for the nonce that the
    /// evidence was asked with, and the session was still current when it came.
    pub proof fn lemma_reports_are_vouched_for(
        self,
        state: CollectState,
        event: CollectEvent,
        nonce: Seq<u8>,
        next: CollectState,
        action: CollectAction,
    )
        requires
            self.sound(state, nonce),
            self.follows(state, event, nonce, next, action),
        ensures
            self.sound(next, nonce),
            action matches CollectAction::Report(Ok(appraisal)) ==> self.vouches(nonce, appraisal)
                && event == CollectEvent::Current(true),
    {
    }
}

impl CollectState {
    /// The session in which the appraisal is collected.
    pub open spec fn session(self) -> Option<String> {
        match self {
            CollectState::Opening(id) => Some(id),
            CollectState::Evidence(id) => Some(id),
            CollectState::Trustee(id) => Some(id),
            CollectState::Confirming(id, _) => Some(id),
            _ => None,
        }
    }
}

impl AttestationReporter {
    /// An appraisal is collected step by step, each step asked for by what the one before it
    /// gave: a relay once there is a session, evidence once the relay is open, the trustee's word
    /// once there is evidence, and a look at the session once there is an appraisal. All of it
    /// happens in one session.
    pub proof fn lemma_collecting_goes_step_by_step(
        self,
        state: CollectState,
        event: CollectEvent,
        nonce: Seq<u8>,
        next: CollectState,
        action: CollectAction,
    )
        requires
            self.follows(state, event, nonce, next, action),
        ensures
            action is OpenRelay <==> state is Start && (event matches CollectEvent::Session(Some(_))),
            action is OpenRelay ==> (event matches CollectEvent::Session(Some(id)) && next
                == CollectState::Opening(id)),
            action is RequestEvidence <==> state is Opening && event == CollectEvent::Relay(true),
            action is RequestEvidence ==> next is Evidence,
            action is RequestTrustee <==> state is Evidence && (event matches
                CollectEvent::Evidence(given) && given is Ok),
            action is RequestTrustee ==> next is Trustee,
            action is CheckSession ==> state is Trustee && next is Confirming && (event matches
                CollectEvent::Token(given) && given is Ok),
            action matches CollectAction::CheckSession(id) ==> (state.session() matches Some(own)
                && id@ == own@),
            !(state is Start) && !(next is Done) ==> next.session() == state.session(),
            action is Report <==> next is Done && !(state is Done),
            state is Done ==> next is Done && action is Nothing,
    {
    }

    /// Evidence is asked for the nonce, and the trustee is asked about that evidence, for that
    /// nonce and by the policy of the configuration; both go out in the base 64 of URLs.
    pub proof fn lemma_requests_carry_the_nonce(
        self,
        state: CollectState,
        event: CollectEvent,
        nonce: Seq<u8>,
        next: CollectState,
        action: CollectAction,
    )
        requires
            self.follows(state, event, nonce, next, action),
        ensures
            action matches CollectAction::RequestEvidence(path) ==> path@
                == "/aa/evidence?runtime_data="@ + base64_text(nonce, true) + "&encoding=base64"@,
            action matches CollectAction::RequestTrustee(request) ==> (event matches
                CollectEvent::Evidence(Ok(evidence)) && {
                &&& request.tee@ == "tdx"@
                &&& request.evidence@ == base64_text(evidence@, true)
                &&& request.runtime_data@ == base64_text(nonce, true)
                &&& request.policy_id@ == self.policy_id@
            }),
    {
    }

    /// What is reported is the appraisal that waits, where the session is still current when it
    /// is looked at; a session or a relay that is not there is reported as such, and what went
    /// wrong with the evidence or at the trustee is passed on.
    pub proof fn lemma_outcomes_are_reported(
        self,
        state: CollectState,
        event: CollectEvent,
        nonce: Seq<u8>,
        next: CollectState,
        action: CollectAction,
    )
        requires
            self.follows(state, event, nonce, next, action),
        ensures
            action matches CollectAction::Report(Ok(appraisal)) ==> event == CollectEvent::Current(
                true,
            ) && (state matches CollectState::Confirming(_, waiting) && waiting == appraisal),
            state is Confirming && event == CollectEvent::Current(true) ==> (action matches
                CollectAction::Report(Ok(_))),
            (state is Start && event == CollectEvent::Session(None)) || (state is Opening && event
                == CollectEvent::Relay(false)) || (state is Confirming && event
                == CollectEvent::Current(false)) ==> action == CollectAction::Report(
                Err(AppraisalError::RelayUnavailable),
            ),
            state is Evidence ==> (event matches CollectEvent::Evidence(Err(error)) ==> action
                == CollectAction::Report(Err(error))),
            state is Trustee ==> (event matches CollectEvent::Token(Err(error)) ==> action
                == CollectAction::Report(Err(error))),
            state is Trustee && action is Report && (event matches CollectEvent::Token(Ok(_)))
                ==> action == CollectAction::Report(Err(AppraisalError::InvalidAppraisal)),
    {
    }
}

/// A file is taken exactly where it was opened, is a regular one, and neither says that it is
/// longer than the bound nor is.
pub proof fn lemma_files_keep_their_bound(path: Seq<char>, max: u64, label: Seq<char>, file: FileRead)
    ensures
        ({
            let kept = file matches FileRead::Opened { regular, len, contents } && regular && len
                <= max && (contents matches Ok(bytes) && bytes@.len() <= max);
            &&& bounded(path, max, label, file) is Ok <==> kept
            &&& bounded(path, max, label, file) matches Ok(taken) ==> (file matches
                FileRead::Opened { contents, .. } && (contents matches Ok(bytes) && bytes@ == taken))
        }),
{
}

/// A reporter is made with what its configuration names: the trimmed policy, the key that the key
/// file holds, and the references that the reference file holds. Both files have to be regular
/// ones.
pub proof fn lemma_reporters_are_made_as_configured(
    config: AttestationReportFileConfig,
    reference_file: FileRead,
    key_file: FileRead,
    result: Result<AttestationReporter, String>,
)
    requires
        configures(config, reference_file, key_file, result),
    ensures
        result matches Ok(reporter) ==> {
            &&& reporter.policy_id@ == trimmed(config.policy_id@)
            &&& trimmed(config.policy_id@).len() > 0
            &&& attestation_url(url_parts(config.trustee_url@), config.trustee_url@) == Ok::<
                Seq<char>,
                Seq<char>,
            >(reporter.trustee_attestation_url@)
            &&& key_file matches FileRead::Opened { regular, contents, .. } && regular && (
            contents matches Ok(bytes) && reporter.decoding_key.pem() == bytes@)
            &&& reference_file matches FileRead::Opened { regular, contents, .. } && regular && (
            contents matches Ok(bytes) && references_in(bytes@) is Ok && keeps(
                map_of(references_in(bytes@)->Ok_0),
                lists(reporter.references@),
            ))
        },
        !(key_file is Opened) || !(reference_file is Opened) ==> result is Err,
{
}

/// The trustee is asked of this evidence, for this nonce and by this policy, each in its own
/// field; and the sandbox is asked for evidence with the nonce.
pub proof fn lemma_trustee_is_asked_of_the_evidence(
    request: TrusteeRequest,
    evidence: Seq<u8>,
    nonce: Seq<u8>,
    policy: Seq<char>,
)
    requires
        request.asks(evidence, nonce, policy),
    ensures
        request.evidence@ == base64_text(evidence, true),
        request.runtime_data@ == base64_text(nonce, true),
        request.policy_id@ == policy,
        request.tee@ == "tdx"@,
        evidence_request(nonce) == "/aa/evidence?runtime_data="@ + request.runtime_data@
            + "&encoding=base64"@,
{
}

/// The token that a trustee answers with is text without white space at its ends, and not empty;
/// an answer that is not such a text has none.
pub proof fn lemma_tokens_are_trimmed_text(body: Seq<u8>)
    ensures
        answered_token(body) is Some <==> vstd::utf8::valid_utf8(body) && trimmed(
            vstd::utf8::decode_utf8(body),
        ).len() > 0,
        answered_token(body) matches Some(token) ==> token.len() > 0 && token == trimmed(
            vstd::utf8::decode_utf8(body),
        ),
{
}

/// A length that is announced is the number that the header says in digits; what is no number, or
/// one too large for this machine, announces nothing.
pub proof fn lemma_announced_lengths_are_numbers(n: nat)
    ensures
        announced_length(None) is None,
        n <= usize::MAX ==> announced_length(Some(decimal_of(n))) == Some(n as int),
        n > usize::MAX ==> announced_length(Some(decimal_of(n))) is None,
{
    text::lemma_numbers_are_read_back(n as int);
}

} // verus!
