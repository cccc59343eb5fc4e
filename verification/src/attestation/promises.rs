//! What every appraisal keeps: it repeats the claims under their names, it is for the nonce that
//! it was asked with, and what it shows of the boot components is what the boot log says.

use vstd::prelude::*;
use crate::attestation::claims::{
    all_measured, appraised, boot_components, candidates, first_digest, first_expected,
    is_expected, measured, measures, report_data, MeasurementView,
};
use crate::attestation::json::Json;
use crate::attestation::reference::{all_hex, BootComponent};
use crate::encoding::{hex_char, hex_text};
use crate::text::{hex_digit, holds_text, lower, lowered, repeated};

verus! {

/// The claims on the processor.
pub open spec fn processor(claims: Json) -> Option<Json> {
    match claims.member("submods"@) {
        Some(submods) => submods.member("cpu0"@),
        None => None,
    }
}

/// The evidence that the claims on the processor were made from.
pub open spec fn evidence_in(claims: Json) -> Option<Json> {
    match processor(claims) {
        Some(cpu) => cpu.member("ear.veraison.annotated-evidence"@),
        None => None,
    }
}

/// The events of the boot log in evidence; none where it has no log.
pub open spec fn log_in(evidence: Json) -> Option<Seq<Json>> {
    match evidence.member("tdx"@) {
        Some(tdx) => match tdx.member("uefi_event_logs"@) {
            Some(log) => log.list(),
            None => Some(Seq::empty()),
        },
        None => None,
    }
}

/// Whether the member `key` is the integer `n`.
pub open spec fn holds_integer(value: Json, key: Seq<char>, n: int) -> bool {
    value.member(key) matches Some(held) && (held.integer() matches Some(m) && m == n)
}

/// Whether the member `key` is the text `s`.
pub open spec fn holds_words(value: Json, key: Seq<char>, s: Seq<char>) -> bool {
    value.member(key) matches Some(held) && held.text() == Some(s)
}

/// The number that a hexadecimal digit of either case stands for.
pub open spec fn hex_number(c: char) -> int {
    if 0x30 <= c as u32 <= 0x39 {
        c as u32 - 0x30
    } else if 0x41 <= c as u32 <= 0x46 {
        c as u32 - 0x41 + 10
    } else if 0x61 <= c as u32 <= 0x66 {
        c as u32 - 0x61 + 10
    } else {
        -1
    }
}

/// Whether `s` is 64 hexadecimal digits that spell the 32 bytes of a nonce, and 64 zeros.
pub open spec fn spells(s: Seq<char>, nonce: Seq<u8>) -> bool {
    &&& s.len() == 128
    &&& forall|i: int|
        0 <= i < 32 ==> #[trigger] nonce[i] == 16 * hex_number(s[2 * i]) + hex_number(s[2 * i + 1])
    &&& forall|i: int| 0 <= i < 64 ==> hex_number(#[trigger] s[i]) >= 0
    &&& forall|i: int| 64 <= i < 128 ==> #[trigger] s[i] == '0'
}

/// An appraisal repeats the claims on the processor: its status and its policy are the texts
/// under their names, and each value of its trustworthiness vector is the integer that the claim
/// of the same name carries.
pub proof fn lemma_report_repeats_the_claims(
    claims: Json,
    nonce: Seq<u8>,
    references: Map<Seq<char>, Seq<Seq<char>>>,
    policy: Seq<char>,
)
    ensures
        appraised(claims, nonce, references, policy) matches Some(view) ==> {
            &&& processor(claims) matches Some(cpu)
            &&& holds_words(cpu, "ear.status"@, view.ear_status)
            &&& holds_words(cpu, "ear.appraisal-policy-id"@, view.policy_id)
            &&& view.policy_id == policy
            &&& cpu.member("ear.trustworthiness-vector"@) matches Some(vector)
            &&& view.ar4si_vector matches Some(shown)
            &&& holds_integer(vector, "hardware"@, shown.hardware as int)
            &&& holds_integer(vector, "executables"@, shown.executables as int)
            &&& holds_integer(vector, "configuration"@, shown.configuration as int)
            &&& holds_integer(vector, "file-system"@, shown.file_system as int)
            &&& 0 <= shown.hardware <= 127
            &&& 0 <= shown.executables <= 127
            &&& 0 <= shown.configuration <= 127
            &&& 0 <= shown.file_system <= 127
            &&& 0 < view.ear_status.len() <= 64
            &&& 0 < view.policy_id.len() <= 256
            &&& forall|i: int|
                0 <= i < view.ear_status.len() ==> 0x21 <= (#[trigger] view.ear_status[i]) as u32
                    <= 0x7e
        },
{
}

proof fn lemma_digit_spells(c: char, n: int)
    requires
        0 <= n < 16,
    ensures
        hex_digit(c) && lower(c) == hex_char(n) <==> hex_number(c) == n,
{
    if hex_digit(c) && lower(c) == hex_char(n) {
        assert(hex_char(n) as u32 == if n < 10 {
            0x30 + n
        } else {
            0x61 + n - 10
        });
    }
    if hex_number(c) == n {
        assert(lower(c) as u32 == hex_char(n) as u32);
    }
}

proof fn lemma_spelled(s: Seq<char>, nonce: Seq<u8>)
    requires
        nonce.len() == 32,
    ensures
        s.len() == 128 && all_hex(s) && lowered(s) == report_data(nonce) <==> spells(s, nonce),
{
    let data = report_data(nonce);
    assert(data.len() == 128);
    assert forall|i: int| 0 <= i < 32 implies data[2 * i] == hex_char(nonce[i] as int / 16)
        && data[2 * i + 1] == hex_char(nonce[i] as int % 16) by {
        assert((2 * i) / 2 == i && (2 * i) % 2 == 0);
        assert((2 * i + 1) / 2 == i && (2 * i + 1) % 2 == 1);
        assert(data[2 * i] == hex_text(nonce)[2 * i]);
        assert(data[2 * i + 1] == hex_text(nonce)[2 * i + 1]);
    }
    assert forall|i: int| 64 <= i < 128 implies data[i] == '0' by {
        assert(data[i] == repeated('0', 64)[i - 64]);
    }
    if s.len() == 128 && all_hex(s) && lowered(s) == data {
        assert forall|i: int| 0 <= i < 32 implies #[trigger] nonce[i] == 16 * hex_number(s[2 * i])
            + hex_number(s[2 * i + 1]) by {
            assert(lowered(s)[2 * i] == lower(s[2 * i]));
            assert(lowered(s)[2 * i + 1] == lower(s[2 * i + 1]));
            lemma_digit_spells(s[2 * i], nonce[i] as int / 16);
            lemma_digit_spells(s[2 * i + 1], nonce[i] as int % 16);
        }
        assert forall|i: int| 64 <= i < 128 implies #[trigger] s[i] == '0' by {
            assert(lowered(s)[i] == lower(s[i]));
            assert(lower(s[i]) == '0');
        }
    }
    if spells(s, nonce) {
        assert forall|i: int| 0 <= i < 128 implies lowered(s)[i] == data[i]
            && hex_digit(#[trigger] s[i]) by {
            assert(lowered(s)[i] == lower(s[i]));
            if i < 64 {
                let k = i / 2;
                let high = hex_number(s[2 * k]);
                let low = hex_number(s[2 * k + 1]);
                assert(0 <= high < 16 && 0 <= low < 16);
                assert(nonce[k] == 16 * high + low);
                assert(nonce[k] as int / 16 == high && nonce[k] as int % 16 == low);
                lemma_digit_spells(s[2 * k], high);
                lemma_digit_spells(s[2 * k + 1], low);
                assert(i == 2 * k || i == 2 * k + 1);
            } else {
                assert(data[i] == '0');
            }
        }
        assert(lowered(s) =~= data);
    }
}

/// The evidence of an appraisal carries the nonce that it was asked with: its report data spells
/// the 32 bytes in hexadecimal, and the rest is zeros.
pub proof fn lemma_evidence_carries_the_nonce(
    claims: Json,
    nonce: Seq<u8>,
    references: Map<Seq<char>, Seq<Seq<char>>>,
    policy: Seq<char>,
)
    requires
        nonce.len() == 32,
        appraised(claims, nonce, references, policy) is Some,
    ensures
        evidence_in(claims) matches Some(evidence) && evidence.member("report_data"@) matches Some(
            data,
        ) && data.text() matches Some(s) && spells(s, nonce),
{
    let evidence = evidence_in(claims)->0;
    let s = evidence.member("report_data"@)->0.text()->0;
    lemma_spelled(s, nonce);
}

/// Whether the device paths of an event hold `fragment`.
pub open spec fn loads_from(event: Json, fragment: Seq<char>) -> bool {
    event.member("details"@) matches Some(details) && details.member("device_paths"@) matches Some(
        held,
    ) && held.list() matches Some(paths) && exists|i: int|
        0 <= i < paths.len() && ((#[trigger] paths[i]).text() matches Some(path) && holds_text(
            path,
            fragment,
        ))
}

/// Whether the details of an event are the text `s`.
pub open spec fn says(event: Json, s: Seq<char>) -> bool {
    event.member("details"@) matches Some(details) && holds_words(details, "string"@, s)
}

/// Whether an event of the boot log is the measurement of the component with the given name.
pub open spec fn is_measurement_of(event: Json, name: Seq<char>) -> bool {
    let loaded = holds_words(event, "type_name"@, "EV_EFI_BOOT_SERVICES_APPLICATION"@);
    let logged = holds_words(event, "type_name"@, "EV_IPL"@);
    ||| name == "shim"@ && loaded && loads_from(event, "shim"@)
    ||| name == "grub"@ && loaded && loads_from(event, "grub"@)
    ||| name == "kernel"@ && loaded && loads_from(event, "File(kernel)"@)
    ||| name == "kernel"@ && logged && exists|s: Seq<char>| #[trigger]
        says(event, s) && holds_text(s, "Kernel"@)
    ||| name == "initrd"@ && logged && exists|s: Seq<char>| #[trigger]
        says(event, s) && holds_text(s, "Initrd"@)
    ||| name == "kernel_cmdline"@ && logged && exists|s: Seq<char>| #[trigger]
        says(event, s) && ("grub_cmd linux"@.is_prefix_of(s) || "kernel_cmdline"@.is_prefix_of(s)
            || "grub_kernel_cmdline"@.is_prefix_of(s))
    ||| name == "kernel_cmdline"@ && holds_words(event, "type_name"@, "EV_EVENT_TAG"@) && says(
        event,
        "LOADED_IMAGE::LoadOptions"@,
    )
}

/// The number of hexadecimal digits of a digest.
pub open spec fn digits_of(algorithm: Seq<char>) -> int {
    if algorithm == "SHA-1"@ {
        40
    } else if algorithm == "SHA-256"@ {
        64
    } else if algorithm == "SHA-384"@ {
        96
    } else {
        -1
    }
}

/// Whether the first digest of an event is `digest` by `algorithm`, letters of either case being
/// the same.
pub open spec fn gives(event: Json, algorithm: Seq<char>, digest: Seq<char>) -> bool {
    &&& event.member("digests"@) matches Some(held)
    &&& held.list() matches Some(digests)
    &&& digests.len() > 0
    &&& holds_words(digests[0], "alg"@, algorithm)
    &&& digests[0].member("digest"@) matches Some(value)
    &&& value.text() matches Some(written)
    &&& written.len() == digits_of(algorithm)
    &&& forall|i: int| 0 <= i < written.len() ==> hex_number(#[trigger] written[i]) >= 0
    &&& digest == lowered(written)
}

/// What is expected of a component by an algorithm.
pub open spec fn references_for(
    references: Map<Seq<char>, Seq<Seq<char>>>,
    name: Seq<char>,
    algorithm: Seq<char>,
) -> Seq<Seq<char>> {
    let key = "measurement."@ + name + "."@ + algorithm;
    if references.dom().contains(key) {
        references[key]
    } else {
        Seq::empty()
    }
}

/// Whether something is expected of a component by an algorithm.
pub open spec fn referenced(
    references: Map<Seq<char>, Seq<Seq<char>>>,
    name: Seq<char>,
    algorithm: Seq<char>,
) -> bool {
    references.dom().contains("measurement."@ + name + "."@ + algorithm)
}

proof fn lemma_names()
    ensures
        "shim"@ != "grub"@,
        "shim"@ != "kernel"@,
        "shim"@ != "initrd"@,
        "shim"@ != "kernel_cmdline"@,
        "grub"@ != "kernel"@,
        "grub"@ != "initrd"@,
        "grub"@ != "kernel_cmdline"@,
        "kernel"@ != "initrd"@,
        "kernel"@ != "kernel_cmdline"@,
        "initrd"@ != "kernel_cmdline"@,
{
    reveal_strlit("shim");
    reveal_strlit("grub");
    reveal_strlit("kernel");
    reveal_strlit("initrd");
    reveal_strlit("kernel_cmdline");
    assert("shim"@[0] == 's' && "grub"@[0] == 'g');
    assert("kernel"@[0] == 'k' && "initrd"@[0] == 'i');
    assert("kernel_cmdline"@.len() == 14 && "kernel"@.len() == 6);
    assert("shim"@.len() == 4 && "grub"@.len() == 4 && "initrd"@.len() == 6);
}

/// An event measures a component exactly where its sort and its details say so.
pub proof fn lemma_measuring_events(event: Json, component: BootComponent)
    ensures
        measures(event, component) <==> is_measurement_of(event, component.name()),
{
    lemma_names();
    if let Some(details) = event.member("details"@) {
        if let Some(s) = details.text_member("string"@) {
            assert(says(event, s));
        }
    }
}

/// The first digest of an event is taken where its algorithm is known and it has as many
/// hexadecimal digits as the algorithm gives; it is shown in small letters.
pub proof fn lemma_first_digests(event: Json)
    ensures
        first_digest(event) matches Some(d) ==> gives(event, d.0, d.1),
        first_digest(event) is None ==> forall|algorithm: Seq<char>, digest: Seq<char>|
            !gives(event, algorithm, digest),
{
    if let Some(digests) = event.list_member("digests"@) {
        if digests.len() > 0 {
            if let Some(value) = digests[0].text_member("digest"@) {
                assert(all_hex(value) <==> forall|i: int|
                    0 <= i < value.len() ==> hex_number(#[trigger] value[i]) >= 0);
            }
        }
    }
}

/// Whether one of the events that measure `component` gives `digest`.
spec fn comes_from(events: Seq<Json>, component: BootComponent, digest: (Seq<char>, Seq<char>)) -> bool {
    exists|i: int|
        0 <= i < events.len() && measures(#[trigger] events[i], component) && first_digest(events[i])
            == Some(digest)
}

proof fn lemma_candidates_are_measured(events: Seq<Json>, component: BootComponent)
    ensures
        candidates(events, component) matches Some(found) ==> {
            &&& forall|j: int|
                0 <= j < found.len() ==> comes_from(events, component, #[trigger] found[j])
            &&& forall|i: int|
                0 <= i < events.len() && measures(#[trigger] events[i], component) ==> first_digest(
                    events[i],
                ) is Some && found.contains(first_digest(events[i])->0)
        },
        candidates(events, component) is None ==> exists|i: int|
            0 <= i < events.len() && measures(#[trigger] events[i], component) && first_digest(
                events[i],
            ) is None,
    decreases events.len(),
{
    if events.len() > 0 {
        let before = events.drop_last();
        let n = events.len() - 1;
        lemma_candidates_are_measured(before, component);
        if let Some(found) = candidates(events, component) {
            let kept = candidates(before, component)->0;
            assert forall|j: int| 0 <= j < found.len() implies comes_from(
                events,
                component,
                #[trigger] found[j],
            ) by {
                if j < kept.len() {
                    assert(found[j] == kept[j]);
                    assert(comes_from(before, component, kept[j]));
                    let i = choose|i: int|
                        0 <= i < before.len() && measures(#[trigger] before[i], component)
                            && first_digest(before[i]) == Some(kept[j]);
                    assert(events[i] == before[i]);
                } else {
                    assert(first_digest(events[n]) == Some(found[j]));
                }
            }
            assert forall|i: int|
                0 <= i < events.len() && measures(#[trigger] events[i], component) implies first_digest(
                events[i],
            ) is Some && found.contains(first_digest(events[i])->0) by {
                if i < n {
                    assert(events[i] == before[i]);
                    let d = first_digest(before[i])->0;
                    let j = choose|j: int| 0 <= j < kept.len() && kept[j] == d;
                    assert(found[j] == d);
                } else {
                    assert(found[found.len() - 1] == first_digest(events[n])->0);
                }
            }
        } else if candidates(before, component) is None {
            let i = choose|i: int|
                0 <= i < before.len() && measures(#[trigger] before[i], component) && first_digest(
                    before[i],
                ) is None;
            assert(events[i] == before[i]);
        } else {
            assert(measures(events[n], component));
        }
    }
}

/// Whether `view` is what a boot log shows of the component with the given name: the first digest
/// of an event that measures it, one that is expected where there is one, with what is expected by
/// its algorithm; and where no event measures it no digest, with what is expected by the strongest
/// algorithm.
pub open spec fn shows(
    view: MeasurementView,
    name: Seq<char>,
    events: Seq<Json>,
    references: Map<Seq<char>, Seq<Seq<char>>>,
) -> bool {
    let found = exists|i: int| 0 <= i < events.len() && is_measurement_of(#[trigger] events[i], name);
    &&& view.component == name
    &&& view.references == if view.algorithm.len() == 0 {
        Seq::empty()
    } else {
        references_for(references, name, view.algorithm)
    }
    &&& found ==> exists|i: int|
        0 <= i < events.len() && is_measurement_of(#[trigger] events[i], name) && gives(
            events[i],
            view.algorithm,
            view.measurement,
        )
    &&& found && !view.references.contains(view.measurement) ==> forall|
        i: int,
        algorithm: Seq<char>,
        digest: Seq<char>,
    |
        0 <= i < events.len() && is_measurement_of(#[trigger] events[i], name) && #[trigger] gives(
            events[i],
            algorithm,
            digest,
        ) ==> !references_for(references, name, algorithm).contains(digest)
    &&& !found ==> {
        &&& view.measurement.len() == 0
        &&& view.algorithm == if referenced(references, name, "SHA-384"@) {
            "SHA-384"@
        } else if referenced(references, name, "SHA-256"@) {
            "SHA-256"@
        } else if referenced(references, name, "SHA-1"@) {
            "SHA-1"@
        } else {
            Seq::empty()
        }
    }
}

proof fn lemma_gives_one(event: Json, a: Seq<char>, d: Seq<char>, b: Seq<char>, e: Seq<char>)
    requires
        gives(event, a, d),
        gives(event, b, e),
    ensures
        a == b,
        d == e,
{
}

proof fn lemma_none_expected(
    found: Seq<(Seq<char>, Seq<char>)>,
    references: Map<Seq<char>, Seq<Seq<char>>>,
    component: BootComponent,
)
    ensures
        0 <= first_expected(found, references, component) <= found.len(),
        first_expected(found, references, component) < found.len() ==> is_expected(
            references,
            component,
            found[first_expected(found, references, component)],
        ),
        first_expected(found, references, component) == found.len() ==> forall|j: int|
            0 <= j < found.len() ==> !is_expected(references, component, #[trigger] found[j]),
    decreases found.len(),
{
    if found.len() > 0 && !is_expected(references, component, found[0]) {
        let rest = found.drop_first();
        lemma_none_expected(rest, references, component);
        let at = first_expected(rest, references, component);
        if at < rest.len() {
            assert(rest[at] == found[at + 1]);
        } else {
            assert forall|j: int| 0 <= j < found.len() implies !is_expected(
                references,
                component,
                #[trigger] found[j],
            ) by {
                if j > 0 {
                    assert(rest[j - 1] == found[j]);
                }
            }
        }
    }
}

proof fn lemma_shown(
    component: BootComponent,
    events: Seq<Json>,
    references: Map<Seq<char>, Seq<Seq<char>>>,
)
    ensures
        measured(component, events, references) matches Some(view) ==> shows(
            view,
            component.name(),
            events,
            references,
        ),
{
    reveal_strlit("SHA-1");
    reveal_strlit("SHA-256");
    reveal_strlit("SHA-384");
    if let Some(view) = measured(component, events, references) {
        let name = component.name();
        let digests = candidates(events, component)->0;
        lemma_candidates_are_measured(events, component);
        assert forall|i: int| 0 <= i < events.len() implies measures(#[trigger] events[i], component)
            == is_measurement_of(events[i], name) by {
            lemma_measuring_events(events[i], component);
        }
        assert forall|i: int| 0 <= i < events.len() implies (first_digest(#[trigger] events[i])
            matches Some(d) ==> gives(events[i], d.0, d.1)) by {
            lemma_first_digests(events[i]);
        }
        lemma_none_expected(digests, references, component);
        let at = first_expected(digests, references, component);
        if digests.len() > 0 {
            let shown = if at < digests.len() {
                digests[at]
            } else {
                digests[0]
            };
            let j = if at < digests.len() {
                at
            } else {
                0
            };
            assert(shown == digests[j]);
            assert(comes_from(events, component, digests[j]));
            let i = choose|i: int|
                0 <= i < events.len() && measures(#[trigger] events[i], component) && first_digest(
                    events[i],
                ) == Some(digests[j]);
            assert(is_measurement_of(events[i], name));
            assert(gives(events[i], view.algorithm, view.measurement));
            if !view.references.contains(view.measurement) {
                assert(at == digests.len());
                assert forall|i: int, algorithm: Seq<char>, digest: Seq<char>|
                    0 <= i < events.len() && is_measurement_of(#[trigger] events[i], name)
                        && #[trigger] gives(events[i], algorithm, digest) implies !references_for(
                    references,
                    name,
                    algorithm,
                ).contains(digest) by {
                    let d = first_digest(events[i])->0;
                    lemma_gives_one(events[i], algorithm, digest, d.0, d.1);
                    let k = choose|k: int| 0 <= k < digests.len() && digests[k] == d;
                    assert(!is_expected(references, component, digests[k]));
                }
            }
        } else {
            assert forall|i: int| 0 <= i < events.len() implies !is_measurement_of(
                #[trigger] events[i],
                name,
            ) by {
                if measures(events[i], component) {
                    assert(digests.contains(first_digest(events[i])->0));
                }
            }
        }
    }
}

proof fn lemma_each_is_measured(
    components: Seq<BootComponent>,
    events: Seq<Json>,
    references: Map<Seq<char>, Seq<Seq<char>>>,
)
    ensures
        all_measured(components, events, references) matches Some(views) ==> views.len()
            == components.len() && forall|k: int|
            0 <= k < components.len() ==> measured(components[k], events, references) == Some(
                #[trigger] views[k],
            ),
        all_measured(components, events, references) is None ==> exists|k: int|
            0 <= k < components.len() && measured(#[trigger] components[k], events, references) is None,
    decreases components.len(),
{
    if components.len() > 0 {
        let before = components.drop_last();
        lemma_each_is_measured(before, events, references);
        if let Some(views) = all_measured(components, events, references) {
            let kept = all_measured(before, events, references)->0;
            assert forall|k: int| 0 <= k < components.len() implies measured(
                components[k],
                events,
                references,
            ) == Some(#[trigger] views[k]) by {
                if k < before.len() {
                    assert(views[k] == kept[k]);
                    assert(components[k] == before[k]);
                }
            }
        } else if all_measured(before, events, references) is None {
            let k = choose|k: int|
                0 <= k < before.len() && measured(#[trigger] before[k], events, references) is None;
            assert(components[k] == before[k]);
        } else {
            assert(components[components.len() - 1] == components.last());
        }
    }
}

/// An appraisal shows the shim, the boot loader, the kernel, the initial file system and the
/// kernel's command line, in this order, each as the boot log of its evidence has it.
pub proof fn lemma_measurements_are_what_the_log_shows(
    claims: Json,
    nonce: Seq<u8>,
    references: Map<Seq<char>, Seq<Seq<char>>>,
    policy: Seq<char>,
)
    ensures
        appraised(claims, nonce, references, policy) matches Some(view) ==> {
            &&& evidence_in(claims) matches Some(evidence)
            &&& log_in(evidence) matches Some(events)
            &&& view.measurements.len() == 5
            &&& shows(view.measurements[0], "shim"@, events, references)
            &&& shows(view.measurements[1], "grub"@, events, references)
            &&& shows(view.measurements[2], "kernel"@, events, references)
            &&& shows(view.measurements[3], "initrd"@, events, references)
            &&& shows(view.measurements[4], "kernel_cmdline"@, events, references)
        },
{
    if let Some(view) = appraised(claims, nonce, references, policy) {
        let events = log_in(evidence_in(claims)->0)->0;
        lemma_each_is_measured(boot_components(), events, references);
        assert forall|k: int| 0 <= k < 5 implies shows(
            view.measurements[k],
            #[trigger] boot_components()[k].name(),
            events,
            references,
        ) by {
            lemma_shown(boot_components()[k], events, references);
        }
        assert(boot_components()[0].name() == "shim"@);
        assert(boot_components()[1].name() == "grub"@);
        assert(boot_components()[2].name() == "kernel"@);
        assert(boot_components()[3].name() == "initrd"@);
        assert(boot_components()[4].name() == "kernel_cmdline"@);
    }
}

/// Whether a text can be shown: printable ASCII throughout, not empty, and not longer than `max`.
pub open spec fn printable(s: Seq<char>, max: int) -> bool {
    0 < s.len() <= max && forall|i: int|
        0 <= i < s.len() ==> 0x21 <= (#[trigger] s[i]) as u32 <= 0x7e
}

/// Claims that are in order are appraised: with a status and the policy that can be shown, four
/// values of trust of seven bits, evidence that carries the nonce, and a boot log each event of
/// which gives a digest.
pub proof fn lemma_claims_in_order_are_appraised(
    claims: Json,
    nonce: Seq<u8>,
    references: Map<Seq<char>, Seq<Seq<char>>>,
    policy: Seq<char>,
    status: Seq<char>,
    values: Seq<int>,
    data: Seq<char>,
)
    requires
        nonce.len() == 32,
        processor(claims) matches Some(cpu) && holds_words(cpu, "ear.status"@, status)
            && holds_words(cpu, "ear.appraisal-policy-id"@, policy) && (cpu.member(
            "ear.trustworthiness-vector"@,
        ) matches Some(vector) && holds_integer(vector, "hardware"@, values[0]) && holds_integer(
            vector,
            "executables"@,
            values[1],
        ) && holds_integer(vector, "configuration"@, values[2]) && holds_integer(
            vector,
            "file-system"@,
            values[3],
        )),
        printable(status, 64),
        printable(policy, 256),
        forall|k: int| 0 <= k < 4 ==> 0 <= #[trigger] values[k] <= 127,
        spells(data, nonce),
        evidence_in(claims) matches Some(evidence) && holds_words(evidence, "report_data"@, data)
            && (log_in(evidence) matches Some(events) && forall|i: int|
            0 <= i < events.len() ==> exists|algorithm: Seq<char>, digest: Seq<char>|
                gives(#[trigger] events[i], algorithm, digest)),
    ensures
        appraised(claims, nonce, references, policy) is Some,
{
    lemma_spelled(data, nonce);
    let events = log_in(evidence_in(claims)->0)->0;
    assert(0 <= values[0] <= 127 && 0 <= values[1] <= 127);
    assert(0 <= values[2] <= 127 && 0 <= values[3] <= 127);
    assert forall|i: int| 0 <= i < events.len() implies first_digest(#[trigger] events[i]) is Some by {
        lemma_first_digests(events[i]);
    }
    lemma_each_is_measured(boot_components(), events, references);
    assert forall|k: int| 0 <= k < 5 implies measured(
        #[trigger] boot_components()[k],
        events,
        references,
    ) is Some by {
        lemma_candidates_are_measured(events, boot_components()[k]);
    }
}

} // verus!
