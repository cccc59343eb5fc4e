//! What the claims of an appraisal say of a sandbox.

use vstd::prelude::*;
use serde_json::Value;
use crate::appraisal::{
    GetSandboxAttestationResponse, SandboxAttestationMeasurement,
    SandboxAttestationTrustworthinessVector,
};
use crate::attestation::json;
use crate::attestation::json::{json_of, jsons_of, Json};
use crate::attestation::reference;
use crate::attestation::reference::{
    digest_digits, displayable, key_of, lists, normal_hex, BootComponent,
};
use crate::encoding;
use crate::encoding::{hex_char, hex_text};
use crate::text;
use crate::text::{holds_text, repeated, texts};
use crate::text_map::TextMap;

verus! {

/// The longest policy name that is shown.
pub const MAX_POLICY_ID_BYTES: usize = 256;

/// The longest status that is shown.
pub const MAX_EAR_STATUS_BYTES: usize = 64;

/// Why there is no appraisal.
#[derive(Debug, Clone, Copy, PartialEq, Eq, Structural)]
pub enum AppraisalError {
    RelayUnavailable,
    EvidenceCollection,
    TrusteeRequest,
    InvalidAppraisal,
}

impl AppraisalError {
    /// The error in words.
    pub open spec fn words(self) -> Seq<char> {
        match self {
            AppraisalError::RelayUnavailable => "sandbox attestation relay is unavailable"@,
            AppraisalError::EvidenceCollection => "sandbox evidence collection failed"@,
            AppraisalError::TrusteeRequest => "Trustee appraisal request failed"@,
            AppraisalError::InvalidAppraisal => "Trustee returned an invalid appraisal"@,
        }
    }

    /// The error in words.
    pub fn describe(self) -> (s: String)
        ensures
            s@ == self.words(),
    {
        match self {
            AppraisalError::RelayUnavailable => "sandbox attestation relay is unavailable".to_string(),
            AppraisalError::EvidenceCollection => "sandbox evidence collection failed".to_string(),
            AppraisalError::TrusteeRequest => "Trustee appraisal request failed".to_string(),
            AppraisalError::InvalidAppraisal => "Trustee returned an invalid appraisal".to_string(),
        }
    }
}

/// A measurement as it is shown.
#[verifier::ext_equal]
pub struct MeasurementView {
    pub component: Seq<char>,
    pub algorithm: Seq<char>,
    pub measurement: Seq<char>,
    pub references: Seq<Seq<char>>,
}

impl View for SandboxAttestationMeasurement {
    type V = MeasurementView;

    open spec fn view(&self) -> MeasurementView {
        MeasurementView {
            component: self.component@,
            algorithm: self.algorithm@,
            measurement: self.measurement@,
            references: texts(self.references@),
        }
    }
}

/// What each of several measurements shows.
pub open spec fn measurement_views(measurements: Seq<SandboxAttestationMeasurement>) -> Seq<
    MeasurementView,
> {
    measurements.map_values(|measurement: SandboxAttestationMeasurement| measurement@)
}

/// Whether a device path in `details` holds `fragment`.
pub open spec fn path_holds(details: Option<Json>, fragment: Seq<char>) -> bool {
    details matches Some(value) && value.list_member("device_paths"@) matches Some(paths)
        && exists|i: int|
        0 <= i < paths.len() && ((#[trigger] paths[i]).text() matches Some(path) && holds_text(
            path,
            fragment,
        ))
}

/// Whether a device path in `details` holds `fragment`.
fn device_path_contains(details: Option<&Value>, fragment: &str) -> (yes: bool)
    ensures
        yes == path_holds(
            match details {
                Some(value) => Some(json_of(*value)),
                None => None,
            },
            fragment@,
        ),
{
    let value = match details {
        Some(value) => value,
        None => return false,
    };
    let paths = match json::list_member(value, "device_paths") {
        Some(paths) => paths,
        None => return false,
    };
    let ghost list = jsons_of(paths@);
    let n: usize = paths.len();
    let mut i: usize = 0;
    while i < n
        invariant
            i <= n,
            n == paths@.len(),
            details == Some(value),
            list == jsons_of(paths@),
            json_of(*value).list_member("device_paths"@) == Some(list),
            forall|j: int|
                0 <= j < i ==> !((#[trigger] list[j]).text() matches Some(path) && holds_text(
                    path,
                    fragment@,
                )),
        decreases n - i,
    {
        assert(list[i as int] == json_of(paths@[i as int]));
        if let Some(path) = json::as_text(&paths[i]) {
            if text::contains(path, fragment) {
                assert(list[i as int].text() matches Some(path) && holds_text(path, fragment@));
                return true;
            }
        }
        i = i + 1;
    }
    false
}

/// The text in the details of an event.
pub open spec fn detail(details: Option<Json>) -> Option<Seq<char>> {
    match details {
        Some(value) => value.text_member("string"@),
        None => None,
    }
}

fn detail_string<'a>(details: Option<&'a Value>) -> (text: Option<&'a str>)
    ensures
        match detail(
            match details {
                Some(value) => Some(json_of(*value)),
                None => None,
            },
        ) {
            Some(s) => text matches Some(t) && t@ == s,
            None => text is None,
        },
{
    match details {
        Some(value) => json::text_member(value, "string"),
        None => None,
    }
}

/// Whether an event of the boot log measures `component`.
pub open spec fn measures(event: Json, component: BootComponent) -> bool {
    let sort = event.text_member("type_name"@);
    let details = event.member("details"@);
    match component {
        BootComponent::Shim | BootComponent::Grub => sort == Some(
            "EV_EFI_BOOT_SERVICES_APPLICATION"@,
        ) && path_holds(details, component.name()),
        BootComponent::Kernel => {
            ||| sort == Some("EV_IPL"@) && (detail(details) matches Some(s) && holds_text(
                s,
                "Kernel"@,
            ))
            ||| sort == Some("EV_EFI_BOOT_SERVICES_APPLICATION"@) && path_holds(
                details,
                "File(kernel)"@,
            )
        },
        BootComponent::Initrd => sort == Some("EV_IPL"@) && (detail(details) matches Some(s)
            && holds_text(s, "Initrd"@)),
        BootComponent::KernelCmdline => {
            ||| sort == Some("EV_IPL"@) && (detail(details) matches Some(s) && {
                ||| "grub_cmd linux"@.is_prefix_of(s)
                ||| "kernel_cmdline"@.is_prefix_of(s)
                ||| "grub_kernel_cmdline"@.is_prefix_of(s)
            })
            ||| sort == Some("EV_EVENT_TAG"@) && detail(details) == Some(
                "LOADED_IMAGE::LoadOptions"@,
            )
        },
    }
}

fn is_text(text: Option<&str>, expected: &str) -> (yes: bool)
    ensures
        yes == (text matches Some(s) && s@ == expected@),
{
    match text {
        Some(s) => text::same(s, expected),
        None => false,
    }
}

/// Whether an event of the boot log measures `component`.
pub fn event_matches_component(event: &Value, component: BootComponent) -> (yes: bool)
    ensures
        yes == measures(json_of(*event), component),
{
    let sort = json::text_member(event, "type_name");
    let details = json::member(event, "details");
    match component {
        BootComponent::Shim | BootComponent::Grub => is_text(
            sort,
            "EV_EFI_BOOT_SERVICES_APPLICATION",
        ) && device_path_contains(details, component.as_str()),
        BootComponent::Kernel => {
            if is_text(sort, "EV_IPL") {
                if let Some(s) = detail_string(details) {
                    if text::contains(s, "Kernel") {
                        return true;
                    }
                }
            }
            is_text(sort, "EV_EFI_BOOT_SERVICES_APPLICATION") && device_path_contains(
                details,
                "File(kernel)",
            )
        },
        BootComponent::Initrd => {
            if is_text(sort, "EV_IPL") {
                if let Some(s) = detail_string(details) {
                    return text::contains(s, "Initrd");
                }
            }
            false
        },
        BootComponent::KernelCmdline => {
            let string = detail_string(details);
            if is_text(sort, "EV_IPL") {
                if let Some(s) = string {
                    if text::starts_with(s, "grub_cmd linux") || text::starts_with(
                        s,
                        "kernel_cmdline",
                    ) || text::starts_with(s, "grub_kernel_cmdline") {
                        return true;
                    }
                }
            }
            is_text(sort, "EV_EVENT_TAG") && is_text(string, "LOADED_IMAGE::LoadOptions")
        },
    }
}

/// The algorithm and the digest that an event gives first; nothing where they are not of a form
/// that is known.
pub open spec fn first_digest(event: Json) -> Option<(Seq<char>, Seq<char>)> {
    match event.list_member("digests"@) {
        Some(digests) => if digests.len() == 0 {
            None
        } else {
            match digests[0].text_member("alg"@) {
                Some(algorithm) => match (
                    digest_digits(algorithm),
                    digests[0].text_member("digest"@),
                ) {
                    (Some(length), Some(value)) => match normal_hex(value, length as nat) {
                        Some(digest) => Some((algorithm, digest)),
                        None => None,
                    },
                    _ => None,
                },
                None => None,
            }
        },
        None => None,
    }
}

/// The algorithm and the digest that an event gives first.
pub fn validated_first_digest(event: &Value) -> (result: Result<(String, String), AppraisalError>)
    ensures
        match first_digest(json_of(*event)) {
            Some(d) => result matches Ok(found) && found.0@ == d.0 && found.1@ == d.1,
            None => result == Err::<(String, String), AppraisalError>(
                AppraisalError::InvalidAppraisal,
            ),
        },
{
    let digests = match json::list_member(event, "digests") {
        Some(digests) => digests,
        None => return Err(AppraisalError::InvalidAppraisal),
    };
    if digests.len() == 0 {
        return Err(AppraisalError::InvalidAppraisal);
    }
    let digest = &digests[0];
    assert(jsons_of(digests@)[0] == json_of(*digest));
    let algorithm = match json::text_member(digest, "alg") {
        Some(algorithm) => algorithm,
        None => return Err(AppraisalError::InvalidAppraisal),
    };
    let length = match reference::digest_length(algorithm) {
        Some(length) => length,
        None => return Err(AppraisalError::InvalidAppraisal),
    };
    let value = match json::text_member(digest, "digest") {
        Some(value) => value,
        None => return Err(AppraisalError::InvalidAppraisal),
    };
    match reference::normalize_hex(value, length) {
        Some(value) => Ok((algorithm.to_string(), value)),
        None => Err(AppraisalError::InvalidAppraisal),
    }
}

/// The digests that events give for `component`, in their order; nothing where one of these
/// events gives none.
pub open spec fn candidates(events: Seq<Json>, component: BootComponent) -> Option<
    Seq<(Seq<char>, Seq<char>)>,
>
    decreases events.len(),
{
    if events.len() == 0 {
        Some(Seq::empty())
    } else {
        match candidates(events.drop_last(), component) {
            None => None,
            Some(before) => if !measures(events.last(), component) {
                Some(before)
            } else {
                match first_digest(events.last()) {
                    Some(digest) => Some(before.push(digest)),
                    None => None,
                }
            },
        }
    }
}

/// The digests that are expected of `component` by `algorithm`.
pub open spec fn expected(
    references: Map<Seq<char>, Seq<Seq<char>>>,
    component: BootComponent,
    algorithm: Seq<char>,
) -> Option<Seq<Seq<char>>> {
    let key = key_of(component.name(), algorithm);
    if references.dom().contains(key) {
        Some(references[key])
    } else {
        None
    }
}

/// Whether a digest is expected of `component`.
pub open spec fn is_expected(
    references: Map<Seq<char>, Seq<Seq<char>>>,
    component: BootComponent,
    digest: (Seq<char>, Seq<char>),
) -> bool {
    expected(references, component, digest.0) matches Some(values) && values.contains(digest.1)
}

/// The first of several digests that is expected, or else the first.
pub open spec fn shown_digest(
    found: Seq<(Seq<char>, Seq<char>)>,
    references: Map<Seq<char>, Seq<Seq<char>>>,
    component: BootComponent,
) -> (Seq<char>, Seq<char>) {
    let at = first_expected(found, references, component);
    if at < found.len() {
        found[at]
    } else {
        found[0]
    }
}

/// The place of the first digest that is expected; the number of digests where none is.
pub open spec fn first_expected(
    found: Seq<(Seq<char>, Seq<char>)>,
    references: Map<Seq<char>, Seq<Seq<char>>>,
    component: BootComponent,
) -> int
    decreases found.len(),
{
    if found.len() == 0 || is_expected(references, component, found[0]) {
        0
    } else {
        1 + first_expected(found.drop_first(), references, component)
    }
}

proof fn lemma_first_expected(
    found: Seq<(Seq<char>, Seq<char>)>,
    references: Map<Seq<char>, Seq<Seq<char>>>,
    component: BootComponent,
    n: int,
)
    requires
        0 <= n <= found.len(),
        forall|i: int| 0 <= i < n ==> !is_expected(references, component, #[trigger] found[i]),
        n < found.len() ==> is_expected(references, component, found[n]),
    ensures
        first_expected(found, references, component) == n,
    decreases found.len(),
{
    if n > 0 {
        assert(found.drop_first()[n - 1] == found[n] || n == found.len());
        assert forall|i: int| 0 <= i < n - 1 implies !is_expected(
            references,
            component,
            #[trigger] found.drop_first()[i],
        ) by {
            assert(found.drop_first()[i] == found[i + 1]);
        }
        lemma_first_expected(found.drop_first(), references, component, n - 1);
    }
}

/// What is shown of a component that no event measures: the expected digests of the strongest
/// algorithm for which there are any.
pub open spec fn unmeasured(
    component: BootComponent,
    references: Map<Seq<char>, Seq<Seq<char>>>,
) -> MeasurementView {
    let (algorithm, values) = match expected(references, component, "SHA-384"@) {
        Some(values) => ("SHA-384"@, values),
        None => match expected(references, component, "SHA-256"@) {
            Some(values) => ("SHA-256"@, values),
            None => match expected(references, component, "SHA-1"@) {
                Some(values) => ("SHA-1"@, values),
                None => (Seq::empty(), Seq::empty()),
            },
        },
    };
    MeasurementView {
        component: component.name(),
        algorithm,
        measurement: Seq::empty(),
        references: values,
    }
}

/// What is shown of a component; nothing where the events are not valid.
pub open spec fn measured(
    component: BootComponent,
    events: Seq<Json>,
    references: Map<Seq<char>, Seq<Seq<char>>>,
) -> Option<MeasurementView> {
    match candidates(events, component) {
        None => None,
        Some(found) => if found.len() == 0 {
            Some(unmeasured(component, references))
        } else {
            let shown = shown_digest(found, references, component);
            Some(
                MeasurementView {
                    component: component.name(),
                    algorithm: shown.0,
                    measurement: shown.1,
                    references: match expected(references, component, shown.0) {
                        Some(values) => values,
                        None => Seq::empty(),
                    },
                },
            )
        },
    }
}

fn expected_values<'a>(
    references: &'a TextMap<Vec<String>>,
    component: BootComponent,
    algorithm: &str,
) -> (values: Option<&'a Vec<String>>)
    ensures
        match expected(lists(references@), component, algorithm@) {
            Some(digests) => values matches Some(v) && texts(v@) == digests,
            None => values is None,
        },
{
    let key = reference::reference_key(component, algorithm);
    references.get(key.as_str())
}

/// What is shown of a component that no event measures.
pub fn measurement_without_event(
    component: BootComponent,
    references: &TextMap<Vec<String>>,
) -> (measurement: SandboxAttestationMeasurement)
    ensures
        measurement@ == unmeasured(component, lists(references@)),
{
    let (algorithm, values) = match expected_values(references, component, "SHA-384") {
        Some(values) => ("SHA-384".to_string(), text::copy_texts(values)),
        None => match expected_values(references, component, "SHA-256") {
            Some(values) => ("SHA-256".to_string(), text::copy_texts(values)),
            None => match expected_values(references, component, "SHA-1") {
                Some(values) => ("SHA-1".to_string(), text::copy_texts(values)),
                None => {
                    let none: Vec<String> = Vec::new();
                    assert(texts(none@) =~= Seq::empty());
                    (String::new(), none)
                },
            },
        },
    };
    SandboxAttestationMeasurement {
        component: component.as_str().to_string(),
        algorithm,
        measurement: String::new(),
        references: values,
    }
}

/// Digests beside their algorithms.
pub open spec fn digest_views(found: Seq<(String, String)>) -> Seq<(Seq<char>, Seq<char>)> {
    found.map_values(|digest: (String, String)| (digest.0@, digest.1@))
}

fn collect_candidates(events: &Vec<Value>, component: BootComponent) -> (result: Result<
    Vec<(String, String)>,
    AppraisalError,
>)
    ensures
        match candidates(jsons_of(events@), component) {
            Some(found) => result matches Ok(v) && digest_views(v@) == found,
            None => result == Err::<Vec<(String, String)>, AppraisalError>(
                AppraisalError::InvalidAppraisal,
            ),
        },
{
    let ghost all = jsons_of(events@);
    let mut found: Vec<(String, String)> = Vec::new();
    let n: usize = events.len();
    let mut i: usize = 0;
    proof {
        assert(all.take(0) =~= Seq::empty());
        assert(digest_views(found@) =~= Seq::empty());
    }
    while i < n
        invariant
            i <= n,
            n == events@.len(),
            all == jsons_of(events@),
            candidates(all.take(i as int), component) == Some(digest_views(found@)),
        decreases n - i,
    {
        proof {
            assert(all.take(i as int + 1).drop_last() =~= all.take(i as int));
            assert(all.take(i as int + 1).last() == json_of(events@[i as int]));
        }
        if event_matches_component(&events[i], component) {
            match validated_first_digest(&events[i]) {
                Ok(digest) => {
                    let ghost before = found@;
                    found.push(digest);
                    assert(digest_views(found@) =~= digest_views(before).push(
                        (digest.0@, digest.1@),
                    ));
                },
                Err(error) => {
                    proof {
                        lemma_candidates_fail(all, component, i as int + 1);
                    }
                    return Err(error);
                },
            }
        }
        i = i + 1;
    }
    assert(all.take(n as int) =~= all);
    Ok(found)
}

proof fn lemma_candidates_fail(events: Seq<Json>, component: BootComponent, n: int)
    requires
        0 <= n <= events.len(),
        candidates(events.take(n), component) is None,
    ensures
        candidates(events, component) is None,
    decreases events.len(),
{
    if n < events.len() {
        assert(events.drop_last().take(n) =~= events.take(n));
        lemma_candidates_fail(events.drop_last(), component, n);
    } else {
        assert(events.take(n) =~= events);
    }
}

/// What is shown of a component.
pub fn measurement_for_component(
    component: BootComponent,
    events: &Vec<Value>,
    references: &TextMap<Vec<String>>,
) -> (result: Result<SandboxAttestationMeasurement, AppraisalError>)
    ensures
        match measured(component, jsons_of(events@), lists(references@)) {
            Some(view) => result matches Ok(measurement) && measurement@ == view,
            None => result == Err::<SandboxAttestationMeasurement, AppraisalError>(
                AppraisalError::InvalidAppraisal,
            ),
        },
{
    let found = match collect_candidates(events, component) {
        Ok(found) => found,
        Err(error) => return Err(error),
    };
    let n: usize = found.len();
    if n == 0 {
        return Ok(measurement_without_event(component, references));
    }
    let ghost views = digest_views(found@);
    let mut at: usize = 0;
    let mut hit: bool = false;
    while !hit && at < n
        invariant
            at <= n,
            n == found@.len(),
            views == digest_views(found@),
            forall|i: int|
                0 <= i < at ==> !is_expected(lists(references@), component, #[trigger] views[i]),
            hit ==> at < n && is_expected(lists(references@), component, views[at as int]),
        decreases
                n - at,
                (if hit {
                    0int
                } else {
                    1int
                }),
    {
        assert(views[at as int] == (found@[at as int].0@, found@[at as int].1@));
        match expected_values(references, component, found[at].0.as_str()) {
            Some(values) if text::is_one_of(values, found[at].1.as_str()) => {
                hit = true;
            },
            _ => {
                at = at + 1;
            },
        }
    }
    proof {
        lemma_first_expected(views, lists(references@), component, at as int);
    }
    let selected: usize = if hit {
        at
    } else {
        0
    };
    assert(views[selected as int] == (found@[selected as int].0@, found@[selected as int].1@));
    let values = match expected_values(references, component, found[selected].0.as_str()) {
        Some(values) => text::copy_texts(values),
        None => Vec::new(),
    };
    proof {
        if expected(lists(references@), component, views[selected as int].0) is None {
            assert(texts(values@) =~= Seq::empty());
        }
    }
    Ok(
        SandboxAttestationMeasurement {
            component: component.as_str().to_string(),
            algorithm: found[selected].0.clone(),
            measurement: found[selected].1.clone(),
            references: values,
        },
    )
}

/// The components in the order in which they are shown.
pub open spec fn boot_components() -> Seq<BootComponent> {
    seq![
        BootComponent::Shim,
        BootComponent::Grub,
        BootComponent::Kernel,
        BootComponent::Initrd,
        BootComponent::KernelCmdline,
    ]
}

/// What is shown of each of several components; nothing where the events are not valid.
pub open spec fn all_measured(
    components: Seq<BootComponent>,
    events: Seq<Json>,
    references: Map<Seq<char>, Seq<Seq<char>>>,
) -> Option<Seq<MeasurementView>>
    decreases components.len(),
{
    if components.len() == 0 {
        Some(Seq::empty())
    } else {
        match (
            all_measured(components.drop_last(), events, references),
            measured(components.last(), events, references),
        ) {
            (Some(before), Some(view)) => Some(before.push(view)),
            _ => None,
        }
    }
}

/// The events of a boot log; a log that is not there has none.
pub open spec fn boot_events(tdx: Json) -> Option<Seq<Json>> {
    match tdx.member("uefi_event_logs"@) {
        None => Some(Seq::empty()),
        Some(value) => value.list(),
    }
}

/// What is shown of a sandbox's boot components.
pub open spec fn boot_measurements(
    tdx: Json,
    references: Map<Seq<char>, Seq<Seq<char>>>,
) -> Option<Seq<MeasurementView>> {
    match boot_events(tdx) {
        Some(events) => all_measured(boot_components(), events, references),
        None => None,
    }
}

proof fn lemma_all_measured_fails(
    components: Seq<BootComponent>,
    events: Seq<Json>,
    references: Map<Seq<char>, Seq<Seq<char>>>,
    n: int,
)
    requires
        0 <= n <= components.len(),
        all_measured(components.take(n), events, references) is None,
    ensures
        all_measured(components, events, references) is None,
    decreases components.len(),
{
    if n < components.len() {
        assert(components.drop_last().take(n) =~= components.take(n));
        lemma_all_measured_fails(components.drop_last(), events, references, n);
    } else {
        assert(components.take(n) =~= components);
    }
}

fn measure_all(events: &Vec<Value>, references: &TextMap<Vec<String>>) -> (result: Result<
    Vec<SandboxAttestationMeasurement>,
    AppraisalError,
>)
    ensures
        match all_measured(boot_components(), jsons_of(events@), lists(references@)) {
            Some(views) => result matches Ok(v) && measurement_views(v@) == views,
            None => result == Err::<Vec<SandboxAttestationMeasurement>, AppraisalError>(
                AppraisalError::InvalidAppraisal,
            ),
        },
{
    let mut components: Vec<BootComponent> = Vec::new();
    components.push(BootComponent::Shim);
    components.push(BootComponent::Grub);
    components.push(BootComponent::Kernel);
    components.push(BootComponent::Initrd);
    components.push(BootComponent::KernelCmdline);
    let ghost all = boot_components();
    let ghost list = jsons_of(events@);
    assert(components@ =~= all);
    let mut measurements: Vec<SandboxAttestationMeasurement> = Vec::new();
    let n: usize = components.len();
    let mut i: usize = 0;
    proof {
        assert(all.take(0) =~= Seq::empty());
        assert(measurement_views(measurements@) =~= Seq::empty());
    }
    while i < n
        invariant
            i <= n,
            n == all.len(),
            all == boot_components(),
            components@ == all,
            list == jsons_of(events@),
            all_measured(all.take(i as int), list, lists(references@)) == Some(
                measurement_views(measurements@),
            ),
        decreases n - i,
    {
        proof {
            assert(all.take(i as int + 1).drop_last() =~= all.take(i as int));
            assert(all.take(i as int + 1).last() == components@[i as int]);
        }
        match measurement_for_component(components[i], events, references) {
            Ok(measurement) => {
                let ghost before = measurements@;
                measurements.push(measurement);
                assert(measurement_views(measurements@) =~= measurement_views(before).push(
                    measurement@,
                ));
            },
            Err(error) => {
                proof {
                    lemma_all_measured_fails(all, list, lists(references@), i as int + 1);
                }
                return Err(error);
            },
        }
        i = i + 1;
    }
    assert(all.take(n as int) =~= all);
    Ok(measurements)
}

/// What is shown of a sandbox's boot components.
pub fn measurements_from_tdx(tdx: &Value, references: &TextMap<Vec<String>>) -> (result: Result<
    Vec<SandboxAttestationMeasurement>,
    AppraisalError,
>)
    ensures
        match boot_measurements(json_of(*tdx), lists(references@)) {
            Some(views) => result matches Ok(v) && measurement_views(v@) == views,
            None => result == Err::<Vec<SandboxAttestationMeasurement>, AppraisalError>(
                AppraisalError::InvalidAppraisal,
            ),
        },
{
    match json::member(tdx, "uefi_event_logs") {
        None => {
            let none: Vec<Value> = Vec::new();
            assert(jsons_of(none@) =~= Seq::empty());
            measure_all(&none, references)
        },
        Some(value) => match json::as_list(value) {
            Some(events) => measure_all(events, references),
            None => Err(AppraisalError::InvalidAppraisal),
        },
    }
}

/// The text under `key`, where it can be shown.
pub open spec fn display_member(value: Json, key: Seq<char>, max: usize) -> Option<Seq<char>> {
    match value.text_member(key) {
        Some(s) if displayable(s, max) => Some(s),
        _ => None,
    }
}

/// The text under `key`, where it can be shown.
pub fn required_display_string(value: &Value, key: &str, max: usize) -> (result: Result<
    String,
    AppraisalError,
>)
    ensures
        match display_member(json_of(*value), key@, max) {
            Some(s) => result matches Ok(t) && t@ == s,
            None => result == Err::<String, AppraisalError>(AppraisalError::InvalidAppraisal),
        },
{
    match json::text_member(value, key) {
        Some(s) => match reference::validate_display_text(s, max, key) {
            Ok(t) => Ok(t),
            Err(_) => Err(AppraisalError::InvalidAppraisal),
        },
        None => Err(AppraisalError::InvalidAppraisal),
    }
}

/// The value of trust under `key`: an integer of 7 bits.
pub open spec fn trust_member(value: Json, key: Seq<char>) -> Option<i32> {
    match value.member(key) {
        Some(held) => match held.integer() {
            Some(n) if 0 <= n <= 127 => Some(n as i32),
            _ => None,
        },
        None => None,
    }
}

/// The value of trust under `key`.
pub fn required_ar4si_value(value: &Value, key: &str) -> (result: Result<i32, AppraisalError>)
    ensures
        match trust_member(json_of(*value), key@) {
            Some(n) => result == Ok::<i32, AppraisalError>(n),
            None => result == Err::<i32, AppraisalError>(AppraisalError::InvalidAppraisal),
        },
{
    match json::member(value, key) {
        Some(held) => match json::as_integer(held) {
            Some(n) if 0 <= n && n <= 127 => Ok(n as i32),
            _ => Err(AppraisalError::InvalidAppraisal),
        },
        None => Err(AppraisalError::InvalidAppraisal),
    }
}

/// The hexadecimal text under `key`, in small letters.
pub open spec fn hex_member(value: Json, key: Seq<char>, length: nat) -> Option<Seq<char>> {
    match value.text_member(key) {
        Some(s) => normal_hex(s, length),
        None => None,
    }
}

/// The hexadecimal text under `key`, in small letters.
pub fn required_hex(value: &Value, key: &str, length: usize) -> (result: Result<
    String,
    AppraisalError,
>)
    ensures
        match hex_member(json_of(*value), key@, length as nat) {
            Some(s) => result matches Ok(t) && t@ == s,
            None => result == Err::<String, AppraisalError>(AppraisalError::InvalidAppraisal),
        },
{
    match json::text_member(value, key) {
        Some(s) => match reference::normalize_hex(s, length) {
            Some(t) => Ok(t),
            None => Err(AppraisalError::InvalidAppraisal),
        },
        None => Err(AppraisalError::InvalidAppraisal),
    }
}

/// The values of trust in a vector.
pub open spec fn trust_vector(vector: Json) -> Option<SandboxAttestationTrustworthinessVector> {
    match (
        trust_member(vector, "hardware"@),
        trust_member(vector, "executables"@),
        trust_member(vector, "configuration"@),
        trust_member(vector, "file-system"@),
    ) {
        (Some(hardware), Some(executables), Some(configuration), Some(file_system)) => Some(
            SandboxAttestationTrustworthinessVector {
                hardware,
                executables,
                configuration,
                file_system,
            },
        ),
        _ => None,
    }
}

fn read_vector(vector: &Value) -> (result: Result<
    SandboxAttestationTrustworthinessVector,
    AppraisalError,
>)
    ensures
        match trust_vector(json_of(*vector)) {
            Some(v) => result == Ok::<SandboxAttestationTrustworthinessVector, AppraisalError>(v),
            None => result == Err::<SandboxAttestationTrustworthinessVector, AppraisalError>(
                AppraisalError::InvalidAppraisal,
            ),
        },
{
    let hardware = match required_ar4si_value(vector, "hardware") {
        Ok(n) => n,
        Err(error) => return Err(error),
    };
    let executables = match required_ar4si_value(vector, "executables") {
        Ok(n) => n,
        Err(error) => return Err(error),
    };
    let configuration = match required_ar4si_value(vector, "configuration") {
        Ok(n) => n,
        Err(error) => return Err(error),
    };
    let file_system = match required_ar4si_value(vector, "file-system") {
        Ok(n) => n,
        Err(error) => return Err(error),
    };
    Ok(
        SandboxAttestationTrustworthinessVector {
            hardware,
            executables,
            configuration,
            file_system,
        },
    )
}

/// The report data that evidence for `nonce` carries: the nonce, and as many zeros.
pub open spec fn report_data(nonce: Seq<u8>) -> Seq<char> {
    hex_text(nonce) + repeated('0', 64)
}

/// An appraisal as it is shown.
#[verifier::ext_equal]
pub struct AppraisalView {
    pub ear_status: Seq<char>,
    pub policy_id: Seq<char>,
    pub ar4si_vector: Option<SandboxAttestationTrustworthinessVector>,
    pub measurements: Seq<MeasurementView>,
}

impl View for GetSandboxAttestationResponse {
    type V = AppraisalView;

    open spec fn view(&self) -> AppraisalView {
        AppraisalView {
            ear_status: self.ear_status@,
            policy_id: self.policy_id@,
            ar4si_vector: self.ar4si_vector,
            measurements: measurement_views(self.measurements@),
        }
    }
}

/// What the evidence of an appraisal shows of the boot components, where it was made for `nonce`.
pub open spec fn evidence_measurements(
    evidence: Json,
    nonce: Seq<u8>,
    references: Map<Seq<char>, Seq<Seq<char>>>,
) -> Option<Seq<MeasurementView>> {
    if hex_member(evidence, "report_data"@, 128) != Some(report_data(nonce)) {
        None
    } else {
        match evidence.member("tdx"@) {
            Some(tdx) => boot_measurements(tdx, references),
            None => None,
        }
    }
}

/// The appraisal that `claims` make, where they are for `nonce` and by the policy that was asked
/// for.
pub open spec fn appraised(
    claims: Json,
    nonce: Seq<u8>,
    references: Map<Seq<char>, Seq<Seq<char>>>,
    policy: Seq<char>,
) -> Option<AppraisalView> {
    match claims.member("submods"@) {
        Some(submods) => match submods.member("cpu0"@) {
            Some(cpu) => cpu_appraised(cpu, nonce, references, policy),
            None => None,
        },
        None => None,
    }
}

/// What [`appraised`] says of the claims on the processor.
pub open spec fn cpu_appraised(
    cpu: Json,
    nonce: Seq<u8>,
    references: Map<Seq<char>, Seq<Seq<char>>>,
    policy: Seq<char>,
) -> Option<AppraisalView> {
    match (
        display_member(cpu, "ear.status"@, MAX_EAR_STATUS_BYTES),
        display_member(cpu, "ear.appraisal-policy-id"@, MAX_POLICY_ID_BYTES),
        cpu.member("ear.trustworthiness-vector"@),
        cpu.member("ear.veraison.annotated-evidence"@),
    ) {
        (Some(ear_status), Some(policy_id), Some(vector), Some(evidence)) => if policy_id
            != policy {
            None
        } else {
            match (trust_vector(vector), evidence_measurements(evidence, nonce, references)) {
                (Some(ar4si_vector), Some(measurements)) => Some(
                    AppraisalView {
                        ear_status,
                        policy_id,
                        ar4si_vector: Some(ar4si_vector),
                        measurements,
                    },
                ),
                _ => None,
            }
        },
        _ => None,
    }
}

fn read_evidence(evidence: &Value, nonce: &[u8; 32], references: &TextMap<Vec<String>>) -> (result:
    Result<Vec<SandboxAttestationMeasurement>, AppraisalError>)
    ensures
        match evidence_measurements(json_of(*evidence), nonce@, lists(references@)) {
            Some(views) => result matches Ok(v) && measurement_views(v@) == views,
            None => result == Err::<Vec<SandboxAttestationMeasurement>, AppraisalError>(
                AppraisalError::InvalidAppraisal,
            ),
        },
{
    let data = match required_hex(evidence, "report_data", 128) {
        Ok(data) => data,
        Err(error) => return Err(error),
    };
    let mut expected_data = encoding::hex_encode(nonce.as_slice());
    expected_data.append(text::repeat_char('0', 64).as_str());
    if !text::same(data.as_str(), expected_data.as_str()) {
        return Err(AppraisalError::InvalidAppraisal);
    }
    match json::member(evidence, "tdx") {
        Some(tdx) => measurements_from_tdx(tdx, references),
        None => Err(AppraisalError::InvalidAppraisal),
    }
}

fn read_cpu(
    cpu: &Value,
    nonce: &[u8; 32],
    references: &TextMap<Vec<String>>,
    expected_policy_id: &str,
) -> (result: Result<GetSandboxAttestationResponse, AppraisalError>)
    ensures
        match cpu_appraised(json_of(*cpu), nonce@, lists(references@), expected_policy_id@) {
            Some(view) => result matches Ok(appraisal) && appraisal@ == view,
            None => result == Err::<GetSandboxAttestationResponse, AppraisalError>(
                AppraisalError::InvalidAppraisal,
            ),
        },
{
    let ear_status = match required_display_string(cpu, "ear.status", MAX_EAR_STATUS_BYTES) {
        Ok(status) => status,
        Err(error) => return Err(error),
    };
    let policy_id = match required_display_string(
        cpu,
        "ear.appraisal-policy-id",
        MAX_POLICY_ID_BYTES,
    ) {
        Ok(id) => id,
        Err(error) => return Err(error),
    };
    if !text::same(policy_id.as_str(), expected_policy_id) {
        return Err(AppraisalError::InvalidAppraisal);
    }
    let vector = match json::member(cpu, "ear.trustworthiness-vector") {
        Some(vector) => vector,
        None => return Err(AppraisalError::InvalidAppraisal),
    };
    let ar4si_vector = match read_vector(vector) {
        Ok(vector) => vector,
        Err(error) => return Err(error),
    };
    let evidence = match json::member(cpu, "ear.veraison.annotated-evidence") {
        Some(evidence) => evidence,
        None => return Err(AppraisalError::InvalidAppraisal),
    };
    match read_evidence(evidence, nonce, references) {
        Ok(measurements) => Ok(
            GetSandboxAttestationResponse {
                ear_status,
                policy_id,
                ar4si_vector: Some(ar4si_vector),
                measurements,
            },
        ),
        Err(error) => Err(error),
    }
}

/// The appraisal that `claims` make.
pub fn appraisal_from_claims(
    claims: &Value,
    nonce: &[u8; 32],
    references: &TextMap<Vec<String>>,
    expected_policy_id: &str,
) -> (result: Result<GetSandboxAttestationResponse, AppraisalError>)
    ensures
        match appraised(json_of(*claims), nonce@, lists(references@), expected_policy_id@) {
            Some(view) => result matches Ok(appraisal) && appraisal@ == view,
            None => result == Err::<GetSandboxAttestationResponse, AppraisalError>(
                AppraisalError::InvalidAppraisal,
            ),
        },
{
    match json::member(claims, "submods") {
        Some(submods) => match json::member(submods, "cpu0") {
            Some(cpu) => read_cpu(cpu, nonce, references, expected_policy_id),
            None => Err(AppraisalError::InvalidAppraisal),
        },
        None => Err(AppraisalError::InvalidAppraisal),
    }
}

/// An appraisal is by the policy that was asked for.
pub proof fn lemma_appraisal_is_by_the_policy(
    claims: Json,
    nonce: Seq<u8>,
    references: Map<Seq<char>, Seq<Seq<char>>>,
    policy: Seq<char>,
)
    ensures
        appraised(claims, nonce, references, policy) matches Some(view) ==> view.policy_id
            == policy,
{
}

/// Claims are an appraisal for one nonce at most, so that old claims do not pass for fresh ones.
pub proof fn lemma_appraisal_is_for_one_nonce(
    claims: Json,
    nonce: Seq<u8>,
    other: Seq<u8>,
    references: Map<Seq<char>, Seq<Seq<char>>>,
    policy: Seq<char>,
)
    requires
        nonce.len() == 32,
        other.len() == 32,
        appraised(claims, nonce, references, policy) is Some,
        appraised(claims, other, references, policy) is Some,
    ensures
        nonce == other,
{
    assert(report_data(nonce) == report_data(other));
    assert(hex_text(nonce) =~= report_data(nonce).take(64));
    assert(hex_text(other) =~= report_data(other).take(64));
    assert forall|i: int| 0 <= i < 32 implies nonce[i] == other[i] by {
        let a = hex_text(nonce);
        let b = hex_text(other);
        assert(a[2 * i] == b[2 * i]);
        assert(a[2 * i + 1] == b[2 * i + 1]);
        assert((2 * i) / 2 == i && (2 * i) % 2 == 0);
        assert((2 * i + 1) / 2 == i && (2 * i + 1) % 2 == 1);
        lemma_hex_char_tells(nonce[i] as int / 16, other[i] as int / 16);
        lemma_hex_char_tells(nonce[i] as int % 16, other[i] as int % 16);
    }
    assert(nonce =~= other);
}

proof fn lemma_hex_char_tells(a: int, b: int)
    requires
        0 <= a < 16,
        0 <= b < 16,
        hex_char(a) == hex_char(b),
    ensures
        a == b,
{
}

/// Every appraisal shows the five boot components, in their order.
pub proof fn lemma_all_components_are_shown(
    claims: Json,
    nonce: Seq<u8>,
    references: Map<Seq<char>, Seq<Seq<char>>>,
    policy: Seq<char>,
)
    ensures
        appraised(claims, nonce, references, policy) matches Some(view) ==> {
            &&& view.measurements.len() == 5
            &&& forall|i: int|
                0 <= i < 5 ==> (#[trigger] view.measurements[i]).component
                    == boot_components()[i].name()
        },
{
    if let Some(view) = appraised(claims, nonce, references, policy) {
        let evidence = claims.member("submods"@)->Some_0.member("cpu0"@)->Some_0.member(
            "ear.veraison.annotated-evidence"@,
        )->Some_0;
        let events = boot_events(evidence.member("tdx"@)->Some_0)->Some_0;
        lemma_components_shown(boot_components(), events, references);
    }
}

proof fn lemma_components_shown(
    components: Seq<BootComponent>,
    events: Seq<Json>,
    references: Map<Seq<char>, Seq<Seq<char>>>,
)
    ensures
        all_measured(components, events, references) matches Some(views) ==> {
            &&& views.len() == components.len()
            &&& forall|i: int|
                0 <= i < components.len() ==> (#[trigger] views[i]).component
                    == components[i].name()
        },
    decreases components.len(),
{
    if components.len() > 0 {
        lemma_components_shown(components.drop_last(), events, references);
    }
}

/// A component of which an event gives an expected digest is shown with one that is expected.
pub proof fn lemma_expected_digest_is_shown(
    component: BootComponent,
    events: Seq<Json>,
    references: Map<Seq<char>, Seq<Seq<char>>>,
    i: int,
)
    requires
        candidates(events, component) matches Some(found) && 0 <= i < found.len() && is_expected(
            references,
            component,
            found[i],
        ),
    ensures
        measured(component, events, references) matches Some(view) && view.references.contains(
            view.measurement,
        ),
{
    let found = candidates(events, component)->Some_0;
    lemma_expected_comes_first(found, references, component, i);
}

proof fn lemma_expected_comes_first(
    found: Seq<(Seq<char>, Seq<char>)>,
    references: Map<Seq<char>, Seq<Seq<char>>>,
    component: BootComponent,
    i: int,
)
    requires
        0 <= i < found.len(),
        is_expected(references, component, found[i]),
    ensures
        0 <= first_expected(found, references, component) <= i,
        is_expected(references, component, found[first_expected(found, references, component)]),
    decreases found.len(),
{
    if !is_expected(references, component, found[0]) {
        assert(found.drop_first()[i - 1] == found[i]);
        lemma_expected_comes_first(found.drop_first(), references, component, i - 1);
        let at = first_expected(found.drop_first(), references, component);
        assert(found.drop_first()[at] == found[at + 1]);
    }
}

/// What is required under a key is there as it is, or nothing is: a text that can be shown, a
/// hexadecimal text of the given length, or an integer of seven bits. What stands under another
/// key does not count.
pub proof fn lemma_required_members_are_as_they_stand(
    value: Json,
    key: Seq<char>,
    max: usize,
    length: nat,
)
    ensures
        value.member(key) is None ==> display_member(value, key, max) is None && trust_member(
            value,
            key,
        ) is None && hex_member(value, key, length) is None,
        display_member(value, key, max) matches Some(s) ==> {
            &&& value.text_member(key) == Some(s)
            &&& 0 < s.len()
        },
        value.member(key) matches Some(held) ==> {
            &&& trust_member(value, key) matches Some(n) ==> held.integer() == Some(n as i64) && 0
                <= n <= 127
            &&& held.integer() matches Some(n) ==> (0 <= n <= 127 ==> trust_member(value, key)
                == Some(n as i32))
        },
        hex_member(value, key, length) matches Some(s) ==> s.len() == length && (value.text_member(
            key,
        ) matches Some(t) && t.len() == length),
{
}

/// Each error has its own words.
pub proof fn lemma_appraisal_errors_are_told_apart(error: AppraisalError)
    ensures
        error.words() == "sandbox attestation relay is unavailable"@ <==> error
            == AppraisalError::RelayUnavailable,
        error.words() == "sandbox evidence collection failed"@ <==> error
            == AppraisalError::EvidenceCollection,
        error.words() == "Trustee appraisal request failed"@ <==> error
            == AppraisalError::TrusteeRequest,
        error.words() == "Trustee returned an invalid appraisal"@ <==> error
            == AppraisalError::InvalidAppraisal,
{
    reveal_strlit("sandbox attestation relay is unavailable");
    reveal_strlit("sandbox evidence collection failed");
    reveal_strlit("Trustee appraisal request failed");
    reveal_strlit("Trustee returned an invalid appraisal");
    assert("sandbox attestation relay is unavailable"@.len() == 40);
    assert("sandbox evidence collection failed"@.len() == 34);
    assert("Trustee appraisal request failed"@.len() == 32);
    assert("Trustee returned an invalid appraisal"@.len() == 37);
}

} // verus!
