//! The digests that boot components are expected to have.

use vstd::prelude::*;
use crate::text;
use crate::text::{
    all_together, ascii_graphic, decimal_of, hex_digit, last_at, lemma_last_at, lower, lowered,
    texts, together,
};
use crate::text_map::{
    ascending, lemma_less_irreflexive, lemma_less_transitive, text_less, TextMap,
};

verus! {

/// A boot component that is measured.
#[derive(Debug, Clone, Copy, PartialEq, Eq, Structural)]
pub enum BootComponent {
    Shim,
    Grub,
    Kernel,
    Initrd,
    KernelCmdline,
}

impl BootComponent {
    /// The component's name.
    pub open spec fn name(self) -> Seq<char> {
        match self {
            BootComponent::Shim => "shim"@,
            BootComponent::Grub => "grub"@,
            BootComponent::Kernel => "kernel"@,
            BootComponent::Initrd => "initrd"@,
            BootComponent::KernelCmdline => "kernel_cmdline"@,
        }
    }

    /// The component with the given name.
    pub open spec fn named(name: Seq<char>) -> Option<BootComponent> {
        if name == "shim"@ {
            Some(BootComponent::Shim)
        } else if name == "grub"@ {
            Some(BootComponent::Grub)
        } else if name == "kernel"@ {
            Some(BootComponent::Kernel)
        } else if name == "initrd"@ {
            Some(BootComponent::Initrd)
        } else if name == "kernel_cmdline"@ {
            Some(BootComponent::KernelCmdline)
        } else {
            None
        }
    }

    pub fn as_str(self) -> (name: &'static str)
        ensures
            name@ == self.name(),
    {
        match self {
            BootComponent::Shim => "shim",
            BootComponent::Grub => "grub",
            BootComponent::Kernel => "kernel",
            BootComponent::Initrd => "initrd",
            BootComponent::KernelCmdline => "kernel_cmdline",
        }
    }

    /// The component with the given name.
    pub fn parse(name: &str) -> (component: Option<BootComponent>)
        ensures
            component == BootComponent::named(name@),
            component matches Some(c) ==> c.name() == name@,
    {
        if text::same(name, "shim") {
            Some(BootComponent::Shim)
        } else if text::same(name, "grub") {
            Some(BootComponent::Grub)
        } else if text::same(name, "kernel") {
            Some(BootComponent::Kernel)
        } else if text::same(name, "initrd") {
            Some(BootComponent::Initrd)
        } else if text::same(name, "kernel_cmdline") {
            Some(BootComponent::KernelCmdline)
        } else {
            None
        }
    }
}

/// The number of hexadecimal digits of a digest, for the algorithms that are known.
pub open spec fn digest_digits(algorithm: Seq<char>) -> Option<usize> {
    if algorithm == "SHA-1"@ {
        Some(40)
    } else if algorithm == "SHA-256"@ {
        Some(64)
    } else if algorithm == "SHA-384"@ {
        Some(96)
    } else {
        None
    }
}

/// The number of hexadecimal digits of a digest, for the algorithms that are known.
pub fn digest_length(algorithm: &str) -> (length: Option<usize>)
    ensures
        length == digest_digits(algorithm@),
{
    if text::same(algorithm, "SHA-1") {
        Some(40)
    } else if text::same(algorithm, "SHA-256") {
        Some(64)
    } else if text::same(algorithm, "SHA-384") {
        Some(96)
    } else {
        None
    }
}

/// Whether `s` is made of hexadecimal digits.
pub open spec fn all_hex(s: Seq<char>) -> bool {
    forall|i: int| 0 <= i < s.len() ==> hex_digit(#[trigger] s[i])
}

/// `value` in small letters, where it is made of `length` hexadecimal digits.
pub open spec fn normal_hex(value: Seq<char>, length: nat) -> Option<Seq<char>> {
    if value.len() == length && all_hex(value) {
        Some(lowered(value))
    } else {
        None
    }
}

/// `value` in small letters, where it is made of `length` hexadecimal digits.
pub fn normalize_hex(value: &str, length: usize) -> (normal: Option<String>)
    ensures
        match normal_hex(value@, length as nat) {
            Some(digits) => normal matches Some(s) && s@ == digits,
            None => normal is None,
        },
{
    let chars = text::chars_of(value);
    if chars.len() != length {
        return None;
    }
    let mut i: usize = 0;
    while i < length
        invariant
            i <= length,
            length == chars@.len(),
            chars@ == value@,
            forall|j: int| 0 <= j < i ==> hex_digit(#[trigger] value@[j]),
        decreases length - i,
    {
        let code: u32 = chars[i] as u32;
        if !((0x30 <= code && code <= 0x39) || (0x41 <= code && code <= 0x46) || (0x61 <= code
            && code <= 0x66)) {
            assert(!hex_digit(value@[i as int]));
            return None;
        }
        i = i + 1;
    }
    Some(text::to_lower(value))
}

/// Whether `value` can be shown: not empty, at most `max` long, and printable ASCII throughout.
pub open spec fn displayable(value: Seq<char>, max: usize) -> bool {
    0 < value.len() <= max && forall|i: int| 0 <= i < value.len() ==> ascii_graphic(#[trigger] value[i])
}

/// `value`, where it can be shown.
pub fn validate_display_text(value: &str, max: usize, label: &str) -> (result: Result<String, String>)
    ensures
        if displayable(value@, max) {
            result matches Ok(s) && s@ == value@
        } else {
            result matches Err(message) && message@ == label@ + " must contain 1..="@ + decimal_of(
                max as nat,
            ) + " printable ASCII bytes"@
        },
{
    let chars = text::chars_of(value);
    let n: usize = chars.len();
    let mut fits: bool = 0 < n && n <= max;
    let mut i: usize = 0;
    while fits && i < n
        invariant
            i <= n,
            n == chars@.len(),
            chars@ == value@,
            fits ==> 0 < n <= max && forall|j: int|
                0 <= j < i ==> ascii_graphic(#[trigger] value@[j]),
            !fits ==> !displayable(value@, max),
        decreases n - i,
    {
        let code: u32 = chars[i] as u32;
        if code < 0x21 || code > 0x7e {
            assert(!ascii_graphic(value@[i as int]));
            fits = false;
        }
        i = i + 1;
    }
    if fits {
        return Ok(value.to_string());
    }
    let mut message = all_together(label, " must contain 1..=", text::decimal(max as u64).as_str());
    message.append(" printable ASCII bytes");
    Err(message)
}

/// The key under which the expected digests of a component stand.
pub open spec fn key_of(component: Seq<char>, algorithm: Seq<char>) -> Seq<char> {
    "measurement."@ + component + "."@ + algorithm
}

/// The key under which the expected digests of a component stand.
pub fn reference_key(component: BootComponent, algorithm: &str) -> (key: String)
    ensures
        key@ == key_of(component.name(), algorithm@),
{
    let mut key = all_together("measurement.", component.as_str(), ".");
    key.append(algorithm);
    key
}

/// The component and the algorithm of a key, where it is one for a component that is measured.
/// The algorithm stands behind the last full stop.
pub open spec fn key_parts(key: Seq<char>) -> Option<(BootComponent, Seq<char>)> {
    let prefix = "measurement."@;
    if prefix.is_prefix_of(key) {
        let suffix = key.skip(prefix.len() as int);
        let at = last_at(suffix, '.');
        if at < 0 {
            None
        } else {
            match BootComponent::named(suffix.take(at)) {
                Some(component) => Some((component, suffix.skip(at + 1))),
                None => None,
            }
        }
    } else {
        None
    }
}

/// The component and the algorithm of a key, where it is one for a component that is measured.
pub fn reference_key_parts(key: &str) -> (parts: Option<(BootComponent, String)>)
    ensures
        match key_parts(key@) {
            Some((component, algorithm)) => parts matches Some(p) && p.0 == component && p.1@
                == algorithm,
            None => parts is None,
        },
{
    let prefix = "measurement.";
    proof {
        reveal_strlit("measurement.");
    }
    if !text::starts_with(key, prefix) {
        return None;
    }
    let chars = text::chars_of(key);
    let suffix = text::text_of(&chars, 12, chars.len());
    assert(suffix@ =~= key@.skip(prefix@.len() as int));
    match text::rsplit_once(suffix.as_str(), '.') {
        None => None,
        Some((component, algorithm)) => match BootComponent::parse(component) {
            Some(component) => Some((component, algorithm.to_string())),
            None => None,
        },
    }
}

/// The length of the digests that stand under `key`; nothing where the key is not used.
pub open spec fn length_under(key: Seq<char>) -> Option<usize> {
    match key_parts(key) {
        Some((component, algorithm)) => digest_digits(algorithm),
        None => None,
    }
}

/// The lists of texts that stand under the keys of a map.
pub open spec fn lists(map: Map<Seq<char>, Vec<String>>) -> Map<Seq<char>, Seq<Seq<char>>> {
    map.map_values(|values: Vec<String>| texts(values@))
}

/// Whether all `values` are digests of `length` digits.
pub open spec fn all_digests(values: Seq<Seq<char>>, length: usize) -> bool {
    forall|i: int|
        0 <= i < values.len() ==> normal_hex(#[trigger] values[i], length as nat) is Some
}

/// Whether what stands under a key may stand there. What is not used may be anything.
pub open spec fn acceptable(key: Seq<char>, values: Seq<Seq<char>>) -> bool {
    match length_under(key) {
        Some(length) => all_digests(values, length),
        None => true,
    }
}

/// What is kept of reference values: those that are used, in small letters.
pub open spec fn keeps(
    references: Map<Seq<char>, Seq<Seq<char>>>,
    normal: Map<Seq<char>, Seq<Seq<char>>>,
) -> bool {
    &&& forall|key: Seq<char>| #[trigger]
        normal.dom().contains(key) <==> references.dom().contains(key) && length_under(key) is Some
    &&& forall|key: Seq<char>| #[trigger]
        normal.dom().contains(key) ==> normal[key] == references[key].map_values(
            |digest: Seq<char>| lowered(digest),
        )
}

/// Whether all that is used is digests.
pub open spec fn all_acceptable(references: Map<Seq<char>, Seq<Seq<char>>>) -> bool {
    forall|key: Seq<char>| #[trigger]
        references.dom().contains(key) ==> acceptable(key, references[key])
}

/// What normalising reference values comes to: all that are used must be digests, and the first
/// key, in their order, under which there is something else is reported.
pub open spec fn normalizes(
    references: Map<Seq<char>, Seq<Seq<char>>>,
    result: Result<TextMap<Vec<String>>, String>,
) -> bool {
    if all_acceptable(references) {
        result matches Ok(normal) && keeps(references, lists(normal@))
    } else {
        result matches Err(message) && refuses(references, message@)
    }
}

/// Whether `message` reports the first key under which there is something else than digests.
pub open spec fn refuses(
    references: Map<Seq<char>, Seq<Seq<char>>>,
    message: Seq<char>,
) -> bool {
    exists|key: Seq<char>| #[trigger]
        first_refused(references, key) && message == "invalid reference digest in "@ + key
}

/// Whether `key` is the first under which there is something else than digests.
pub open spec fn first_refused(references: Map<Seq<char>, Seq<Seq<char>>>, key: Seq<char>) -> bool {
    &&& references.dom().contains(key)
    &&& !acceptable(key, references[key])
    &&& forall|other: Seq<char>| #[trigger]
        references.dom().contains(other) && text_less(other, key) ==> acceptable(
            other,
            references[other],
        )
}

/// A name is found again.
proof fn lemma_names()
    ensures
        forall|component: BootComponent|
            BootComponent::named(#[trigger] component.name()) == Some(component),
        forall|name: Seq<char>|
            (#[trigger] BootComponent::named(name)) matches Some(component) ==> component.name()
                == name,
{
    reveal_strlit("shim");
    reveal_strlit("grub");
    reveal_strlit("kernel");
    reveal_strlit("initrd");
    reveal_strlit("kernel_cmdline");
    assert("shim"@.len() == 4 && "grub"@.len() == 4);
    assert("kernel"@.len() == 6 && "initrd"@.len() == 6);
    assert("kernel_cmdline"@.len() == 14);
    assert("shim"@[0] != "grub"@[0]);
    assert("kernel"@[0] != "initrd"@[0]);
    assert forall|component: BootComponent| BootComponent::named(#[trigger] component.name())
        == Some(component) by {
        match component {
            BootComponent::Shim => {},
            BootComponent::Grub => {
                assert("grub"@ != "shim"@);
            },
            BootComponent::Kernel => {},
            BootComponent::Initrd => {
                assert("initrd"@ != "kernel"@);
            },
            BootComponent::KernelCmdline => {},
        }
    }
}

/// The key that is made from the parts of a key is that key.
pub proof fn lemma_key_of_parts(key: Seq<char>)
    ensures
        key_parts(key) matches Some(parts) ==> key_of(parts.0.name(), parts.1) == key,
{
    if let Some((component, algorithm)) = key_parts(key) {
        lemma_names();
        reveal_strlit("measurement.");
        reveal_strlit(".");
        let prefix = "measurement."@;
        let suffix = key.skip(prefix.len() as int);
        let at = last_at(suffix, '.');
        lemma_last_at_holds(suffix, '.');
        assert(suffix =~= suffix.take(at) + "."@ + suffix.skip(at + 1));
        assert(key =~= prefix + suffix);
        assert(key_of(component.name(), algorithm) =~= key);
    }
}

proof fn lemma_last_at_holds(s: Seq<char>, c: char)
    ensures
        -1 <= last_at(s, c) < s.len(),
        last_at(s, c) >= 0 ==> s[last_at(s, c)] == c,
    decreases s.len(),
{
    if s.len() > 0 && s.last() != c {
        lemma_last_at_holds(s.drop_last(), c);
    }
}

/// A key that is made for a component and an algorithm without a full stop comes apart again.
pub proof fn lemma_parts_of_key(component: BootComponent, algorithm: Seq<char>)
    requires
        !algorithm.contains('.'),
    ensures
        key_parts(key_of(component.name(), algorithm)) == Some((component, algorithm)),
{
    lemma_names();
    reveal_strlit("measurement.");
    reveal_strlit(".");
    let prefix = "measurement."@;
    let key = key_of(component.name(), algorithm);
    let suffix = key.skip(prefix.len() as int);
    let n = component.name().len() as int;
    assert(suffix =~= component.name() + "."@ + algorithm);
    assert(prefix.is_prefix_of(key)) by {
        assert(key.take(prefix.len() as int) =~= prefix);
    }
    assert(suffix[n] == '.');
    assert forall|i: int| n < i < suffix.len() implies #[trigger] suffix[i] != '.' by {
        assert(suffix[i] == algorithm[i - n - 1]);
        assert(algorithm.contains(algorithm[i - n - 1]));
    }
    lemma_last_at(suffix, '.', n);
    assert(suffix.take(n) =~= component.name());
    assert(suffix.skip(n + 1) =~= algorithm);
}

fn normalize_values(values: &Vec<String>, length: usize) -> (normal: Option<Vec<String>>)
    ensures
        if all_digests(texts(values@), length) {
            normal matches Some(v) && texts(v@) == texts(values@).map_values(
                |digest: Seq<char>| lowered(digest),
            )
        } else {
            normal is None
        },
{
    let mut normal: Vec<String> = Vec::new();
    let n: usize = values.len();
    let mut i: usize = 0;
    while i < n
        invariant
            i <= n,
            n == values@.len(),
            normal@.len() == i,
            forall|j: int|
                0 <= j < i ==> normal_hex(#[trigger] texts(values@)[j], length as nat) is Some,
            forall|j: int|
                0 <= j < i ==> (#[trigger] normal@[j])@ == lowered(values@[j]@),
        decreases n - i,
    {
        match normalize_hex(values[i].as_str(), length) {
            Some(digest) => {
                normal.push(digest);
            },
            None => {
                assert(normal_hex(texts(values@)[i as int], length as nat) is None);
                return None;
            },
        }
        i = i + 1;
    }
    proof {
        assert(texts(normal@) =~= texts(values@).map_values(
            |digest: Seq<char>| lowered(digest),
        ));
    }
    Some(normal)
}

proof fn lemma_first_refused(
    references: Map<Seq<char>, Seq<Seq<char>>>,
    keys: Seq<Seq<char>>,
    i: int,
)
    requires
        ascending(keys),
        0 <= i < keys.len(),
        forall|k: Seq<char>| references.dom().contains(k) <==> #[trigger] keys.contains(k),
        !acceptable(keys[i], references[keys[i]]),
        forall|j: int| 0 <= j < i ==> acceptable(#[trigger] keys[j], references[keys[j]]),
    ensures
        first_refused(references, keys[i]),
{
    let key = keys[i];
    assert(keys.contains(key));
    assert forall|other: Seq<char>| #[trigger]
        references.dom().contains(other) && text_less(other, key) implies acceptable(
        other,
        references[other],
    ) by {
        assert(keys.contains(other));
        let j = keys.index_of(other);
        assert(keys[j] == other);
        if j == i {
            lemma_less_irreflexive(key);
        } else if j > i {
            assert(text_less(keys[i], keys[j]));
            lemma_less_transitive(key, other, key);
            lemma_less_irreflexive(key);
        }
    }
}

/// Reference values as they are compared: only those that are used, in small letters.
pub fn normalize_references(references: &TextMap<Vec<String>>) -> (result: Result<
    TextMap<Vec<String>>,
    String,
>)
    ensures
        normalizes(lists(references@), result),
{
    let mut normal: TextMap<Vec<String>> = TextMap::new();
    let n: usize = references.len();
    let ghost keys = references.keys();
    let ghost all = lists(references@);
    assert(forall|k: Seq<char>| all.dom().contains(k) <==> references@.dom().contains(k));
    let mut i: usize = 0;
    while i < n
        invariant
            i <= n,
            n == keys.len(),
            keys == references.keys(),
            ascending(keys),
            all == lists(references@),
            forall|k: Seq<char>| all.dom().contains(k) <==> #[trigger] keys.contains(k),
            forall|j: int| 0 <= j < i ==> acceptable(#[trigger] keys[j], all[keys[j]]),
            forall|k: Seq<char>| #[trigger]
                normal@.dom().contains(k) <==> length_under(k) is Some && exists|j: int|
                    0 <= j < i && keys[j] == k,
            forall|k: Seq<char>| #[trigger]
                normal@.dom().contains(k) ==> texts(normal@[k]@) == all[k].map_values(
                    |digest: Seq<char>| lowered(digest),
                ),
        decreases n - i,
    {
        let key = references.key_at(i);
        let values = references.value_at(i);
        let ghost before = normal@;
        assert(all[keys[i as int]] == texts(values@));
        if let Some((component, algorithm)) = reference_key_parts(key.as_str()) {
            if let Some(length) = digest_length(algorithm.as_str()) {
                match normalize_values(values, length) {
                    None => {
                        proof {
                            lemma_first_refused(all, keys, i as int);
                        }
                        return Err(together("invalid reference digest in ", key.as_str()));
                    },
                    Some(digests) => {
                        let own = reference_key(component, algorithm.as_str());
                        proof {
                            lemma_key_of_parts(key@);
                        }
                        normal.insert(own, digests);
                    },
                }
            }
        }
        proof {
            assert forall|k: Seq<char>| #[trigger]
                normal@.dom().contains(k) <==> length_under(k) is Some && exists|j: int|
                    0 <= j < i + 1 && keys[j] == k by {
                if k == keys[i as int] {
                    assert(0 <= i < i + 1 && keys[i as int] == k);
                } else {
                    assert(normal@.dom().contains(k) == before.dom().contains(k));
                }
            }
        }
        i = i + 1;
    }
    proof {
        assert forall|key: Seq<char>| #[trigger]
            all.dom().contains(key) implies acceptable(key, all[key]) && exists|
            j: int,
        |
            0 <= j < n && keys[j] == key by {
            assert(keys.contains(key));
            let j = keys.index_of(key);
            assert(keys[j] == key);
        }
        assert forall|key: Seq<char>| #[trigger]
            normal@.dom().contains(key) <==> all.dom().contains(key) && length_under(
                key,
            ) is Some by {
            if normal@.dom().contains(key) {
                let j = choose|j: int| 0 <= j < n && keys[j] == key;
                assert(keys.contains(key));
            }
        }
    }
    proof {
        assert(forall|k: Seq<char>| lists(normal@).dom().contains(k) <==> normal@.dom().contains(k));
        assert(keeps(all, lists(normal@)));
    }
    Ok(normal)
}

/// A digest in small letters stays as it is.
pub proof fn lemma_normal_hex_is_stable(value: Seq<char>, length: nat)
    ensures
        normal_hex(value, length) matches Some(digits) ==> normal_hex(digits, length) == Some(
            digits,
        ),
{
    if let Some(digits) = normal_hex(value, length) {
        assert forall|i: int| 0 <= i < digits.len() implies hex_digit(#[trigger] digits[i]) && lower(
            digits[i],
        ) == digits[i] by {
            assert(digits[i] == lower(value[i]));
            assert(hex_digit(value[i]));
        }
        assert(lowered(digits) =~= digits);
    }
}

/// What is kept of reference values is what stands under the keys of the five boot components for
/// the three algorithms, digest by digest, in small letters.
pub proof fn lemma_known_references_are_kept(
    references: Map<Seq<char>, Seq<Seq<char>>>,
    normal: Map<Seq<char>, Seq<Seq<char>>>,
    component: BootComponent,
    algorithm: Seq<char>,
)
    requires
        keeps(references, normal),
        algorithm == "SHA-1"@ || algorithm == "SHA-256"@ || algorithm == "SHA-384"@,
    ensures
        ({
            let key = "measurement."@ + component.name() + "."@ + algorithm;
            &&& normal.dom().contains(key) <==> references.dom().contains(key)
            &&& normal.dom().contains(key) ==> {
                &&& normal[key].len() == references[key].len()
                &&& forall|i: int|
                    0 <= i < normal[key].len() ==> #[trigger] normal[key][i] == lowered(
                        references[key][i],
                    )
            }
        }),
{
    reveal_strlit("SHA-1");
    reveal_strlit("SHA-256");
    reveal_strlit("SHA-384");
    assert forall|i: int| 0 <= i < algorithm.len() implies algorithm[i] != '.' by {}
    lemma_parts_of_key(component, algorithm);
    let key = key_of(component.name(), algorithm);
    assert(length_under(key) is Some);
}

/// Reference values are refused exactly where one of those that are used is not made of as many
/// hexadecimal digits as its algorithm gives.
pub proof fn lemma_references_must_be_digests(
    references: Map<Seq<char>, Seq<Seq<char>>>,
    result: Result<TextMap<Vec<String>>, String>,
    component: BootComponent,
    algorithm: Seq<char>,
    digits: int,
)
    requires
        normalizes(references, result),
        (algorithm == "SHA-1"@ && digits == 40) || (algorithm == "SHA-256"@ && digits == 64) || (
        algorithm == "SHA-384"@ && digits == 96),
    ensures
        ({
            let key = "measurement."@ + component.name() + "."@ + algorithm;
            result is Ok && references.dom().contains(key) ==> forall|i: int|
                0 <= i < references[key].len() ==> (#[trigger] references[key][i]).len() == digits
                    && forall|j: int|
                    0 <= j < digits ==> hex_digit(#[trigger] references[key][i][j])
        }),
{
    reveal_strlit("SHA-1");
    reveal_strlit("SHA-256");
    reveal_strlit("SHA-384");
    assert forall|i: int| 0 <= i < algorithm.len() implies algorithm[i] != '.' by {}
    lemma_parts_of_key(component, algorithm);
    let key = key_of(component.name(), algorithm);
    assert(length_under(key) == Some(digits as usize));
    if result is Ok && references.dom().contains(key) {
        assert(acceptable(key, references[key]));
        assert forall|i: int| 0 <= i < references[key].len() implies (
        #[trigger] references[key][i]).len() == digits && forall|j: int|
            0 <= j < digits ==> hex_digit(#[trigger] references[key][i][j]) by {
            assert(normal_hex(references[key][i], digits as nat) is Some);
        }
    }
}

/// A digest has one hexadecimal digit for four of the bits that its algorithm makes.
pub proof fn lemma_digests_have_their_length(algorithm: Seq<char>)
    ensures
        algorithm == "SHA-1"@ ==> (digest_digits(algorithm) matches Some(n) && 4 * n == 160),
        algorithm == "SHA-256"@ ==> (digest_digits(algorithm) matches Some(n) && 4 * n == 256),
        algorithm == "SHA-384"@ ==> (digest_digits(algorithm) matches Some(n) && 4 * n == 384),
        digest_digits(algorithm) is Some <==> algorithm == "SHA-1"@ || algorithm == "SHA-256"@
            || algorithm == "SHA-384"@,
{
    reveal_strlit("SHA-1");
    reveal_strlit("SHA-256");
    reveal_strlit("SHA-384");
    assert("SHA-1"@.len() == 5 && "SHA-256"@.len() == 7 && "SHA-384"@.len() == 7);
    assert("SHA-256"@[4] == '2' && "SHA-384"@[4] == '3');
}

} // verus!
