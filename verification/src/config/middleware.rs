//! Middleware services that supervisors connect to, and the certificates they are trusted by.

use vstd::prelude::*;
use crate::config::file::{ConfigFileError, MiddlewareServiceFileConfig};
use crate::encoding;
use crate::encoding::base64_text;
use crate::text;
use crate::text::together;

verus! {

/// A section of a PEM file.
#[derive(Debug)]
pub enum PemSection {
    /// A certificate, with its bytes.
    Certificate(Vec<u8>),
    /// A section of another sort, such as a key.
    Other,
    /// What cannot be read, with the reason.
    Broken(String),
}

/// What a section holds.
pub enum PemSectionView {
    Certificate(Seq<u8>),
    Other,
    Broken(Seq<char>),
}

impl View for PemSection {
    type V = PemSectionView;

    open spec fn view(&self) -> PemSectionView {
        match self {
            PemSection::Certificate(bytes) => PemSectionView::Certificate(bytes@),
            PemSection::Other => PemSectionView::Other,
            PemSection::Broken(reason) => PemSectionView::Broken(reason@),
        }
    }
}

/// What `rustls_pemfile::read_all` finds in a file.
pub uninterp spec fn sections_of(pem: Seq<u8>) -> Seq<PemSectionView>;

/// `rustls_pemfile::read_all`: the sections of a PEM file, in their order. What it finds depends
/// on the bytes alone.
#[verifier::external_body]
fn read_sections(pem: &Vec<u8>) -> (sections: Vec<PemSection>)
    ensures
        sections@.map_values(|section: PemSection| section@) == sections_of(pem@),
{
    let mut sections = Vec::new();
    for item in rustls_pemfile::read_all(&mut std::io::Cursor::new(pem)) {
        sections.push(
            match item {
                Ok(rustls_pemfile::Item::X509Certificate(c)) => PemSection::Certificate(c.to_vec()),
                Ok(_) => PemSection::Other,
                Err(e) => PemSection::Broken(e.to_string()),
            },
        );
    }
    sections
}

/// The characters of an ASCII text as bytes.
pub open spec fn ascii_bytes(s: Seq<char>) -> Seq<u8> {
    Seq::new(s.len(), |i: int| s[i] as u8)
}

fn add_ascii(bytes: &mut Vec<u8>, s: &str)
    ensures
        final(bytes)@ == old(bytes)@ + ascii_bytes(s@),
{
    let ghost before = bytes@;
    let chars = text::chars_of(s);
    add_chars(bytes, &chars, 0, chars.len());
    assert(s@.subrange(0, s@.len() as int) =~= s@);
}

fn add_chars(bytes: &mut Vec<u8>, chars: &Vec<char>, from: usize, to: usize)
    requires
        from <= to <= chars@.len(),
    ensures
        final(bytes)@ == old(bytes)@ + ascii_bytes(chars@.subrange(from as int, to as int)),
{
    let ghost before = bytes@;
    let mut i: usize = from;
    while i < to
        invariant
            from <= i <= to,
            to <= chars@.len(),
            bytes@ =~= before + ascii_bytes(chars@.subrange(from as int, i as int)),
        decreases to - i,
    {
        bytes.push(chars[i] as u8);
        i = i + 1;
    }
}

/// The longest line of a PEM section.
pub const PEM_LINE: usize = 64;

/// `s` in lines of at most [`PEM_LINE`] characters, each with a line feed at its end.
pub open spec fn in_lines(s: Seq<char>) -> Seq<char>
    decreases s.len(),
{
    if s.len() == 0 {
        Seq::empty()
    } else if s.len() <= PEM_LINE {
        s.push('\n')
    } else {
        s.take(PEM_LINE as int).push('\n') + in_lines(s.skip(PEM_LINE as int))
    }
}

/// A certificate as a section of a PEM file.
pub open spec fn certificate_section(certificate: Seq<u8>) -> Seq<char> {
    "-----BEGIN CERTIFICATE-----\n"@ + in_lines(base64_text(certificate, false))
        + "-----END CERTIFICATE-----\n"@
}

fn add_lines(bytes: &mut Vec<u8>, s: &str)
    ensures
        final(bytes)@ == old(bytes)@ + ascii_bytes(in_lines(s@)),
{
    let ghost before = bytes@;
    let chars = text::chars_of(s);
    let n: usize = chars.len();
    let mut i: usize = 0;
    proof {
        assert(s@.skip(0) =~= s@);
        assert(bytes@ =~= before + ascii_bytes(Seq::empty()));
        assert(Seq::<char>::empty() + in_lines(s@) =~= in_lines(s@));
    }
    while i < n
        invariant
            i <= n,
            n == chars@.len(),
            chars@ == s@,
            exists|done: Seq<char>|
                bytes@ == before + #[trigger] ascii_bytes(done) && done + in_lines(
                    s@.skip(i as int),
                ) == in_lines(s@),
        decreases n - i,
    {
        let ghost done = choose|done: Seq<char>|
            bytes@ == before + #[trigger] ascii_bytes(done) && done + in_lines(s@.skip(i as int))
                == in_lines(s@);
        let to: usize = if n - i <= PEM_LINE {
            n
        } else {
            i + PEM_LINE
        };
        add_chars(bytes, &chars, i, to);
        bytes.push('\n' as u8);
        proof {
            let rest = s@.skip(i as int);
            let line = s@.subrange(i as int, to as int).push('\n');
            assert(ascii_bytes(done + line) =~= ascii_bytes(done) + ascii_bytes(
                s@.subrange(i as int, to as int),
            ).push('\n' as u8));
            assert(bytes@ =~= before + ascii_bytes(done + line));
            if rest.len() <= PEM_LINE {
                assert(rest =~= s@.subrange(i as int, to as int));
                assert(s@.skip(to as int) =~= Seq::empty());
                assert(done + line + in_lines(s@.skip(to as int)) =~= in_lines(s@));
            } else {
                assert(rest.take(PEM_LINE as int) =~= s@.subrange(i as int, to as int));
                assert(rest.skip(PEM_LINE as int) =~= s@.skip(to as int));
                assert(done + line + in_lines(s@.skip(to as int)) =~= done + in_lines(rest));
            }
        }
        i = to;
    }
    proof {
        let done = choose|done: Seq<char>|
            bytes@ == before + #[trigger] ascii_bytes(done) && done + in_lines(s@.skip(i as int))
                == in_lines(s@);
        assert(s@.skip(i as int) =~= Seq::empty());
        assert(done =~= in_lines(s@));
    }
}

/// The certificates in `sections` as a PEM file, or why they cannot be taken: the first section
/// that is no certificate decides.
pub open spec fn certificates(sections: Seq<PemSectionView>) -> Result<Seq<char>, Seq<char>>
    decreases sections.len(),
{
    if sections.len() == 0 {
        Ok(Seq::empty())
    } else {
        match certificates(sections.drop_last()) {
            Err(reason) => Err(reason),
            Ok(before) => match sections.last() {
                PemSectionView::Certificate(bytes) => Ok(before + certificate_section(bytes)),
                PemSectionView::Other => Err("PEM bundle contains a non-certificate block"@),
                PemSectionView::Broken(reason) => Err(reason),
            },
        }
    }
}

/// Like [`certificates`], where there must be one.
pub open spec fn bundle(sections: Seq<PemSectionView>) -> Result<Seq<char>, Seq<char>> {
    if sections.len() == 0 {
        Err("PEM bundle does not contain a certificate"@)
    } else {
        certificates(sections)
    }
}

/// Whether `error` says that the certificates at `path` are not valid for `reason`.
pub open spec fn invalid_certificates(
    error: ConfigFileError,
    name: Seq<char>,
    path: Seq<char>,
    reason: Seq<char>,
) -> bool {
    error matches ConfigFileError::MiddlewareTlsCaInvalid { name: n, path: p, message } && {
        &&& n@ == name
        &&& p@ == path
        &&& message@ == reason
    }
}

fn invalid(name: &str, path: &str, message: &str) -> (error: ConfigFileError)
    ensures
        invalid_certificates(error, name@, path@, message@),
{
    ConfigFileError::MiddlewareTlsCaInvalid {
        name: name.to_string(),
        path: path.to_string(),
        message: message.to_string(),
    }
}

/// What taking a bundle comes to.
pub open spec fn sanitizes(
    name: Seq<char>,
    path: Seq<char>,
    sections: Seq<PemSectionView>,
    result: Result<Vec<u8>, ConfigFileError>,
) -> bool {
    match bundle(sections) {
        Ok(text) => result matches Ok(bytes) && bytes@ == ascii_bytes(text),
        Err(reason) => result matches Err(error) && invalid_certificates(error, name, path, reason),
    }
}

/// The sections as a PEM file that holds certificates and nothing else.
pub fn sanitize_sections(name: &str, path: &str, sections: &Vec<PemSection>) -> (result: Result<
    Vec<u8>,
    ConfigFileError,
>)
    ensures
        sanitizes(name@, path@, sections@.map_values(|section: PemSection| section@), result),
{
    let ghost all = sections@.map_values(|section: PemSection| section@);
    let mut sanitized: Vec<u8> = Vec::new();
    let n: usize = sections.len();
    let mut i: usize = 0;
    proof {
        assert(all.take(0) =~= Seq::empty());
        assert(sanitized@ =~= ascii_bytes(Seq::empty()));
    }
    while i < n
        invariant
            i <= n,
            n == sections@.len(),
            all == sections@.map_values(|section: PemSection| section@),
            certificates(all.take(i as int)) matches Ok(text) && sanitized@ == ascii_bytes(text),
        decreases n - i,
    {
        let ghost text = certificates(all.take(i as int))->Ok_0;
        proof {
            assert(all.take(i as int + 1).drop_last() =~= all.take(i as int));
            assert(all.take(i as int + 1).last() == sections@[i as int]@);
        }
        match &sections[i] {
            PemSection::Certificate(certificate) => {
                add_ascii(&mut sanitized, "-----BEGIN CERTIFICATE-----\n");
                let encoded = encoding::base64_standard(certificate);
                add_lines(&mut sanitized, encoded.as_str());
                add_ascii(&mut sanitized, "-----END CERTIFICATE-----\n");
                proof {
                    assert(sanitized@ =~= ascii_bytes(text + certificate_section(certificate@)));
                }
            },
            PemSection::Other => {
                let message = "PEM bundle contains a non-certificate block";
                proof {
                    lemma_first_failure(all, i as int + 1);
                }
                return Err(invalid(name, path, message));
            },
            PemSection::Broken(reason) => {
                proof {
                    lemma_first_failure(all, i as int + 1);
                }
                return Err(invalid(name, path, reason.as_str()));
            },
        }
        i = i + 1;
    }
    assert(all.take(n as int) =~= all);
    if n == 0 {
        return Err(invalid(name, path, "PEM bundle does not contain a certificate"));
    }
    Ok(sanitized)
}

/// A section that cannot be taken decides, whatever follows it.
proof fn lemma_first_failure(all: Seq<PemSectionView>, n: int)
    requires
        0 < n <= all.len(),
        certificates(all.take(n)) is Err,
    ensures
        certificates(all) == certificates(all.take(n)),
    decreases all.len(),
{
    if n < all.len() {
        assert(all.drop_last().take(n) =~= all.take(n));
        lemma_first_failure(all.drop_last(), n);
    } else {
        assert(all.take(n) =~= all);
    }
}

/// A PEM file that holds the certificates of `pem` and nothing else.
pub fn sanitize_ca_cert_pem(name: &str, path: &str, pem: &Vec<u8>) -> (result: Result<
    Vec<u8>,
    ConfigFileError,
>)
    ensures
        sanitizes(name@, path@, sections_of(pem@), result),
{
    let sections = read_sections(pem);
    sanitize_sections(name, path, &sections)
}

/// A bundle is taken exactly if it has sections and all of them are certificates, so that no key
/// is ever handed on.
pub proof fn lemma_only_certificates_are_taken(sections: Seq<PemSectionView>)
    ensures
        bundle(sections) is Ok <==> sections.len() > 0 && forall|i: int|
            0 <= i < sections.len() ==> #[trigger] sections[i] is Certificate,
    decreases sections.len(),
{
    lemma_certificates_taken(sections);
}

proof fn lemma_certificates_taken(sections: Seq<PemSectionView>)
    ensures
        certificates(sections) is Ok <==> forall|i: int|
            0 <= i < sections.len() ==> #[trigger] sections[i] is Certificate,
    decreases sections.len(),
{
    if sections.len() > 0 {
        let before = sections.drop_last();
        lemma_certificates_taken(before);
        assert(forall|i: int| 0 <= i < before.len() ==> before[i] == sections[i]);
        assert(sections.last() == sections[sections.len() - 1]);
        if certificates(sections) is Ok {
            assert forall|i: int| 0 <= i < sections.len() implies #[trigger] sections[i] is Certificate by {
                if i < before.len() {
                    assert(before[i] is Certificate);
                }
            }
        } else if forall|i: int|
            0 <= i < sections.len() ==> #[trigger] sections[i] is Certificate {
            assert(forall|i: int| 0 <= i < before.len() ==> #[trigger] before[i] is Certificate);
        }
    }
}

/// A middleware service as supervisors are told of it.
#[derive(Debug)]
pub struct SupervisorMiddlewareService {
    pub name: String,
    pub grpc_endpoint: String,
    pub max_payload_bytes: u64,
    pub timeout: String,
    pub tls_ca_cert_pem: Vec<u8>,
    pub audience: String,
    pub allow_insecure_transport: bool,
}

/// The audience of a service: the one that is set, or one that its name gives.
pub open spec fn audience_of(config: MiddlewareServiceFileConfig) -> Seq<char> {
    match config.audience {
        Some(audience) if audience@.len() > 0 => audience@,
        _ => "urn:openshell:extension:middleware:"@ + config.name@,
    }
}

/// What the configuration of a service, with what its certificate file holds, comes to.
pub open spec fn registers_from(
    config: MiddlewareServiceFileConfig,
    certificates: Result<Vec<u8>, String>,
    result: Result<SupervisorMiddlewareService, ConfigFileError>,
) -> bool {
    match config.tls_ca_cert_path {
        None => result matches Ok(service) && service.registers(config, Seq::empty()),
        Some(path) => match certificates {
            Err(source) => result matches Err(
                ConfigFileError::MiddlewareTlsCaRead { name, path: p, source: s },
            ) && name@ == config.name@ && p@ == path@ && s == source,
            Ok(pem) => match bundle(sections_of(pem@)) {
                Ok(text) => result matches Ok(service) && service.registers(
                    config,
                    ascii_bytes(text),
                ),
                Err(reason) => result matches Err(error) && invalid_certificates(
                    error,
                    config.name@,
                    path@,
                    reason,
                ),
            },
        },
    }
}

impl SupervisorMiddlewareService {
    /// Whether this is the service that `config` registers, with `certificates`.
    pub open spec fn registers(
        self,
        config: MiddlewareServiceFileConfig,
        certificates: Seq<u8>,
    ) -> bool {
        &&& self.name@ == config.name@
        &&& self.grpc_endpoint@ == config.grpc_endpoint@
        &&& self.max_payload_bytes == config.max_payload_bytes
        &&& self.timeout@ == match config.timeout {
            Some(timeout) => timeout@,
            None => Seq::empty(),
        }
        &&& self.tls_ca_cert_pem@ == certificates
        &&& self.audience@ == audience_of(config)
        &&& self.allow_insecure_transport == config.allow_insecure_transport
    }

    fn with_certificates(config: &MiddlewareServiceFileConfig, tls_ca_cert_pem: Vec<u8>) -> (service:
        Self)
        ensures
            service.registers(*config, tls_ca_cert_pem@),
    {
        let timeout = match &config.timeout {
            Some(timeout) => timeout.clone(),
            None => String::new(),
        };
        let audience = match &config.audience {
            Some(audience) if !audience.as_str().is_empty() => audience.clone(),
            _ => together("urn:openshell:extension:middleware:", config.name.as_str()),
        };
        SupervisorMiddlewareService {
            name: config.name.clone(),
            grpc_endpoint: config.grpc_endpoint.clone(),
            max_payload_bytes: config.max_payload_bytes,
            timeout,
            tls_ca_cert_pem,
            audience,
            allow_insecure_transport: config.allow_insecure_transport,
        }
    }

    /// The service that `config` registers, given what reading its file of certificates gave,
    /// where it names one.
    pub fn try_from_config(
        config: &MiddlewareServiceFileConfig,
        certificates: Result<Vec<u8>, String>,
    ) -> (result: Result<Self, ConfigFileError>)
        ensures
            registers_from(*config, certificates, result),
    {
        match &config.tls_ca_cert_path {
            None => Ok(SupervisorMiddlewareService::with_certificates(config, Vec::new())),
            Some(path) => match certificates {
                Err(source) => Err(
                    ConfigFileError::MiddlewareTlsCaRead {
                        name: config.name.clone(),
                        path: path.clone(),
                        source,
                    },
                ),
                Ok(pem) => match sanitize_ca_cert_pem(config.name.as_str(), path.as_str(), &pem) {
                    Ok(bytes) => Ok(SupervisorMiddlewareService::with_certificates(config, bytes)),
                    Err(error) => Err(error),
                },
            },
        }
    }
}

/// Text in lines is the text, with a line feed behind every 64th character and one at its end.
pub proof fn lemma_lines_hold_the_text(s: Seq<char>)
    ensures
        in_lines(s).len() == s.len() + (s.len() + 63) / 64,
        forall|i: int| 0 <= i < s.len() ==> in_lines(s)[i + i / 64] == #[trigger] s[i],
        forall|j: int| 0 <= j && 65 * j + 64 < in_lines(s).len() ==> in_lines(s)[#[trigger] (65 * j + 64)] == '\n',
        s.len() > 0 ==> in_lines(s).last() == '\n',
    decreases s.len(),
{
    if s.len() > 64 {
        let rest = s.skip(64);
        lemma_lines_hold_the_text(rest);
        let head = s.take(64).push('\n');
        assert(in_lines(s) == head + in_lines(rest));
        assert forall|i: int| 0 <= i < s.len() implies in_lines(s)[i + i / 64] == #[trigger] s[i] by {
            if i >= 64 {
                let k = i - 64;
                assert(rest[k] == s[i]);
                assert(i / 64 == k / 64 + 1);
                assert(in_lines(rest)[k + k / 64] == rest[k]);
                assert(in_lines(s)[65 + (k + k / 64)] == in_lines(rest)[k + k / 64]);
            } else {
                assert(i / 64 == 0);
            }
        }
        assert forall|j: int| 0 <= j && 65 * j + 64 < in_lines(s).len() implies in_lines(
            s,
        )[#[trigger] (65 * j + 64)] == '\n' by {
            if j > 0 {
                let k = j - 1;
                assert(in_lines(rest)[65 * k + 64] == '\n');
                assert(in_lines(s)[65 + (65 * k + 64)] == in_lines(rest)[65 * k + 64]);
            }
        }
    } else if s.len() > 0 {
        assert forall|i: int| 0 <= i < s.len() implies in_lines(s)[i + i / 64] == #[trigger] s[i] by {
            assert(i / 64 == 0);
        }
        assert forall|j: int| 0 <= j && 65 * j + 64 < in_lines(s).len() implies in_lines(
            s,
        )[#[trigger] (65 * j + 64)] == '\n' by {
            assert(j == 0);
        }
    }
}

/// A bundle that is taken holds its certificates one behind the other, each between the lines
/// that begin and end one, and nothing else.
pub proof fn lemma_bundles_hold_their_certificates(sections: Seq<PemSectionView>, certificate: Seq<u8>)
    requires
        bundle(sections) is Ok || sections.len() == 0,
    ensures
        bundle(sections.push(PemSectionView::Certificate(certificate))) == Ok::<
            Seq<char>,
            Seq<char>,
        >(
            (match bundle(sections) {
                Ok(before) => before,
                Err(_) => Seq::empty(),
            }) + ("-----BEGIN CERTIFICATE-----\n"@ + in_lines(base64_text(certificate, false))
                + "-----END CERTIFICATE-----\n"@),
        ),
{
    assert(sections.push(PemSectionView::Certificate(certificate)).drop_last() =~= sections);
}

/// A bundle is refused for the first of its sections that is no certificate: with the reason why
/// it cannot be read, or as one of another sort; and where it has no section for that.
pub proof fn lemma_first_bad_section_is_reported(sections: Seq<PemSectionView>, n: int)
    requires
        0 <= n < sections.len(),
        forall|i: int| 0 <= i < n ==> #[trigger] sections[i] is Certificate,
        !(sections[n] is Certificate),
    ensures
        sections[n] is Other ==> bundle(sections) == Err::<Seq<char>, Seq<char>>(
            "PEM bundle contains a non-certificate block"@,
        ),
        sections[n] matches PemSectionView::Broken(reason) ==> bundle(sections) == Err::<
            Seq<char>,
            Seq<char>,
        >(reason),
        bundle(Seq::empty()) == Err::<Seq<char>, Seq<char>>(
            "PEM bundle does not contain a certificate"@,
        ),
{
    let head = sections.take(n + 1);
    assert(head.drop_last() =~= sections.take(n));
    assert forall|i: int| 0 <= i < n implies #[trigger] sections.take(n)[i] is Certificate by {
        assert(sections[i] is Certificate);
    }
    lemma_certificates_taken(sections.take(n));
    assert(head.last() == sections[n]);
    assert(certificates(head) is Err);
    lemma_first_failure(sections, n + 1);
}

/// A service is registered with what its entry in the file says, each part under its own name;
/// an audience that is not set, or empty, is made from the service's name.
pub proof fn lemma_services_are_registered_by_name(
    service: SupervisorMiddlewareService,
    config: MiddlewareServiceFileConfig,
    certificates: Seq<u8>,
)
    requires
        service.registers(config, certificates),
    ensures
        service.name@ == config.name@,
        service.grpc_endpoint@ == config.grpc_endpoint@,
        service.max_payload_bytes == config.max_payload_bytes,
        config.timeout matches Some(timeout) ==> service.timeout@ == timeout@,
        config.timeout is None ==> service.timeout@.len() == 0,
        service.tls_ca_cert_pem@ == certificates,
        service.allow_insecure_transport == config.allow_insecure_transport,
        config.audience matches Some(audience) ==> (audience@.len() > 0 ==> service.audience@
            == audience@),
        config.audience is None ==> service.audience@ == "urn:openshell:extension:middleware:"@
            + config.name@,
        config.audience matches Some(audience) ==> (audience@.len() == 0 ==> service.audience@
            == "urn:openshell:extension:middleware:"@ + config.name@),
{
}

/// A service without a certificate file is registered without certificates. With one, the file
/// has to be read and to hold certificates; what is wrong with it is reported under the service's
/// name and the file's path, and nothing is registered.
pub proof fn lemma_certificate_files_are_needed(
    config: MiddlewareServiceFileConfig,
    certificates: Result<Vec<u8>, String>,
    result: Result<SupervisorMiddlewareService, ConfigFileError>,
)
    requires
        registers_from(config, certificates, result),
    ensures
        config.tls_ca_cert_path is None ==> (result matches Ok(service)
            && service.tls_ca_cert_pem@.len() == 0),
        config.tls_ca_cert_path matches Some(path) ==> {
            &&& certificates matches Err(why) ==> (result matches Err(
                ConfigFileError::MiddlewareTlsCaRead { name, path: p, source },
            ) && name@ == config.name@ && p@ == path@ && source == why)
            &&& certificates matches Ok(pem) ==> {
                &&& result is Ok <==> bundle(sections_of(pem@)) is Ok
                &&& result matches Ok(service) ==> bundle(sections_of(pem@)) matches Ok(text)
                    && service.tls_ca_cert_pem@ == ascii_bytes(text)
                &&& result matches Err(error) ==> (error matches
                    ConfigFileError::MiddlewareTlsCaInvalid { name, path: p, message } && name@
                    == config.name@ && p@ == path@ && bundle(sections_of(pem@)) == Err::<
                    Seq<char>,
                    Seq<char>,
                >(message@))
            }
        },
        result matches Ok(service) ==> service.name@ == config.name@ && service.grpc_endpoint@
            == config.grpc_endpoint@,
{
}

} // verus!
