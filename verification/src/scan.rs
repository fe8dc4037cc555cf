//! How a scan of the default host turns what each enumerated device reported
//! into an inventory: which devices are listed in which direction, with what
//! metadata, and which problems become warnings instead of failing the scan.
//!
//! The host application enumerates the devices and queries each one; a
//! [`DeviceProbe`] holds the answers as plain values.

use vstd::prelude::*;
use crate::audio::{
    AudioDeviceDescriptor, AudioDeviceInventory, AudioDirection, AudioIoError, AudioScanWarning,
    PROJECT_SAMPLE_RATE_HZ,
};
use crate::devices::{
    descriptor, devices_in_order, direction_project_configs, ties_of, listed, reported_at_project_rate, sort_devices,
    strictly_increasing, ConfigView, DeviceMetadata, StreamConfigRange,
};
use crate::text::{chars_of, compare_chars, push_str, Order3};

verus! {

/// Which directions one scan looks at.
#[derive(Clone, Copy, Debug, PartialEq, Eq)]
pub enum ScanScope {
    Inputs,
    Outputs,
    Both,
}

/// The host's answer when asked for a device's configurations in one direction.
#[derive(Clone, Debug, PartialEq, Eq)]
pub enum ConfigListing {
    /// The supported ranges, possibly none.
    Listed(Vec<StreamConfigRange>),
    /// The device has no streams in this direction.
    Unsupported,
    /// The query failed; the host's description of the failure.
    Failed(String),
}

/// What the host reported about one enumerated device.
#[derive(Debug, PartialEq, Eq)]
pub struct DeviceProbe {
    /// The host-qualified ID, or the reason the host could not give one.
    pub id: Result<String, String>,
    pub metadata: Result<DeviceMetadata, String>,
    pub input: ConfigListing,
    pub output: ConfigListing,
    /// The rate the device's input runs at now, when the host says.
    pub current_input_rate_hz: Option<u32>,
    /// The rate the device's output runs at now, when the host says.
    pub current_output_rate_hz: Option<u32>,
}

// ---------------------------------------------------------------------------
// Wording
// ---------------------------------------------------------------------------

pub open spec fn scope_reads(scope: ScanScope, direction: AudioDirection) -> bool {
    match scope {
        ScanScope::Inputs => direction is Input,
        ScanScope::Outputs => direction is Output,
        ScanScope::Both => true,
    }
}

/// The direction a device-level warning is filed under.
pub open spec fn scope_direction(scope: ScanScope) -> Option<AudioDirection> {
    match scope {
        ScanScope::Inputs => Some(AudioDirection::Input),
        ScanScope::Outputs => Some(AudioDirection::Output),
        ScanScope::Both => None,
    }
}

pub open spec fn scope_noun(scope: ScanScope) -> Seq<char> {
    match scope {
        ScanScope::Inputs => "input"@,
        ScanScope::Outputs => "output"@,
        ScanScope::Both => "audio"@,
    }
}

pub open spec fn direction_word(direction: AudioDirection) -> Seq<char> {
    match direction {
        AudioDirection::Input => "input"@,
        AudioDirection::Output => "output"@,
    }
}

pub open spec fn id_warning_text(scope: ScanScope, error: Seq<char>) -> Seq<char> {
    "ignored an "@ + scope_noun(scope) + " device without a usable host ID: "@ + error
}

pub open spec fn metadata_warning_text(scope: ScanScope, error: Seq<char>) -> Seq<char> {
    match scope {
        ScanScope::Both => "device metadata was unavailable: "@ + error,
        _ => scope_noun(scope) + " device metadata was unavailable: "@ + error,
    }
}

/// The name shown for a device whose metadata the host could not read.
pub open spec fn fallback_name(scope: ScanScope) -> Seq<char> {
    match scope {
        ScanScope::Inputs => "Audio input (metadata unavailable)"@,
        ScanScope::Outputs => "Audio output (metadata unavailable)"@,
        ScanScope::Both => "Audio device (metadata unavailable)"@,
    }
}

pub open spec fn listing_failure_text(direction: AudioDirection, error: Seq<char>) -> Seq<char> {
    direction_word(direction) + " configurations were unavailable: "@ + error
}

pub open spec fn enumeration_error_text(host: Seq<char>, scope: ScanScope, error: Seq<char>) -> Seq<char> {
    "could not enumerate "@ + host + " "@ + scope_noun(scope) + " devices: "@ + error
}

// ---------------------------------------------------------------------------
// Warnings
// ---------------------------------------------------------------------------

pub open spec fn optional_view(value: Option<String>) -> Option<Seq<char>> {
    match value {
        Some(text) => Some(text@),
        None => None,
    }
}

/// A warning as (device ID, direction, message).
pub open spec fn warning_view(w: AudioScanWarning) -> (Option<Seq<char>>, Option<AudioDirection>, Seq<char>) {
    (optional_view(w.device_id), w.direction, w.message@)
}

pub open spec fn warnings_view(ws: Seq<AudioScanWarning>) -> Seq<(Option<Seq<char>>, Option<AudioDirection>, Seq<char>)> {
    ws.map_values(|w: AudioScanWarning| warning_view(w))
}

pub open spec fn metadata_warnings(scope: ScanScope, id: Seq<char>, metadata: Result<DeviceMetadata, String>) -> Seq<
    (Option<Seq<char>>, Option<AudioDirection>, Seq<char>),
> {
    match metadata {
        Ok(_) => seq![],
        Err(e) => seq![(Some(id), scope_direction(scope), metadata_warning_text(scope, e@))],
    }
}

pub open spec fn listing_warnings(scope: ScanScope, direction: AudioDirection, id: Seq<char>, listing: ConfigListing) -> Seq<
    (Option<Seq<char>>, Option<AudioDirection>, Seq<char>),
> {
    if scope_reads(scope, direction) {
        match listing {
            ConfigListing::Failed(e) => seq![(Some(id), Some(direction), listing_failure_text(direction, e@))],
            _ => seq![],
        }
    } else {
        seq![]
    }
}

/// The warnings one device contributes: a device without an ID is skipped
/// with one warning; otherwise unreadable metadata, then a failed input
/// query, then a failed output query, each within the scan's scope.
pub open spec fn probe_warnings(scope: ScanScope, probe: DeviceProbe) -> Seq<
    (Option<Seq<char>>, Option<AudioDirection>, Seq<char>),
> {
    match probe.id {
        Err(e) => seq![(None, scope_direction(scope), id_warning_text(scope, e@))],
        Ok(id) => metadata_warnings(scope, id@, probe.metadata) + listing_warnings(
            scope,
            AudioDirection::Input,
            id@,
            probe.input,
        ) + listing_warnings(scope, AudioDirection::Output, id@, probe.output),
    }
}

/// The warnings of the first `n` devices, in enumeration order.
pub open spec fn warnings_upto(scope: ScanScope, probes: Seq<DeviceProbe>, n: int) -> Seq<
    (Option<Seq<char>>, Option<AudioDirection>, Seq<char>),
>
    decreases n,
{
    if n <= 0 {
        seq![]
    } else {
        warnings_upto(scope, probes, n - 1) + probe_warnings(scope, probes[n - 1])
    }
}

// ---------------------------------------------------------------------------
// Listed devices
// ---------------------------------------------------------------------------

pub open spec fn listing_of(probe: DeviceProbe, direction: AudioDirection) -> ConfigListing {
    match direction {
        AudioDirection::Input => probe.input,
        AudioDirection::Output => probe.output,
    }
}

pub open spec fn rate_of(probe: DeviceProbe, direction: AudioDirection) -> Option<u32> {
    match direction {
        AudioDirection::Input => probe.current_input_rate_hz,
        AudioDirection::Output => probe.current_output_rate_hz,
    }
}

/// A device is listed in a direction the scan reads when it has an ID and
/// reported at least one configuration range there.
pub open spec fn listed_in(scope: ScanScope, direction: AudioDirection, probe: DeviceProbe) -> bool {
    &&& scope_reads(scope, direction)
    &&& probe.id is Ok
    &&& listing_of(probe, direction) matches ConfigListing::Listed(ranges) && ranges@.len() > 0
}

/// The positions of the first `n` devices listed in `direction`, in order.
pub open spec fn sources_upto(scope: ScanScope, direction: AudioDirection, probes: Seq<DeviceProbe>, n: int) -> Seq<int>
    decreases n,
{
    if n <= 0 {
        seq![]
    } else if listed_in(scope, direction, probes[n - 1]) {
        sources_upto(scope, direction, probes, n - 1).push(n - 1)
    } else {
        sources_upto(scope, direction, probes, n - 1)
    }
}

/// Name, manufacturer, device type and interface type.
pub open spec fn metadata_view(m: DeviceMetadata) -> (Seq<char>, Option<Seq<char>>, Seq<char>, Seq<char>) {
    (m.name@, optional_view(m.manufacturer), m.device_type@, m.interface_type@)
}

/// The metadata a device is listed with: the host's, or a placeholder name
/// and unknown kinds when the host could not read it.
pub open spec fn resolved_metadata(scope: ScanScope, metadata: Result<DeviceMetadata, String>) -> (
    Seq<char>,
    Option<Seq<char>>,
    Seq<char>,
    Seq<char>,
) {
    match metadata {
        Ok(m) => metadata_view(m),
        Err(_) => (fallback_name(scope), None, "unknown"@, "unknown"@),
    }
}

pub open spec fn is_default_id(default_id: Option<String>, id: Seq<char>) -> bool {
    default_id matches Some(d) && d@ == id
}

/// The inventory record of a device listed with these values.
pub open spec fn entry_fields(
    d: AudioDeviceDescriptor,
    id: Seq<char>,
    metadata: (Seq<char>, Option<Seq<char>>, Seq<char>, Seq<char>),
    is_default: bool,
    rate: Option<u32>,
    ranges: Seq<StreamConfigRange>,
) -> bool {
    &&& d.id@ == id
    &&& (d.name@, optional_view(d.manufacturer), d.device_type@, d.interface_type@) == metadata
    &&& d.is_default == is_default
    &&& d.current_sample_rate_hz == rate
    &&& strictly_increasing(d.configurations@)
    &&& forall|v: ConfigView| listed(d.configurations@, v) <==> reported_at_project_rate(ranges, v)
}

/// `d` is the record of `probe` in `direction`.
pub open spec fn describes(
    d: AudioDeviceDescriptor,
    scope: ScanScope,
    direction: AudioDirection,
    default_id: Option<String>,
    probe: DeviceProbe,
) -> bool {
    &&& probe.id matches Ok(id) && listing_of(probe, direction) matches ConfigListing::Listed(ranges) && entry_fields(
        d,
        id@,
        resolved_metadata(scope, probe.metadata),
        is_default_id(default_id, id@),
        rate_of(probe, direction),
        ranges@,
    )
}

/// `c` holds, in enumeration order, the records of the first `n` devices
/// listed in `direction`.
pub open spec fn collected(
    scope: ScanScope,
    direction: AudioDirection,
    default_id: Option<String>,
    probes: Seq<DeviceProbe>,
    n: int,
    c: Seq<AudioDeviceDescriptor>,
) -> bool {
    &&& c.len() == sources_upto(scope, direction, probes, n).len()
    &&& forall|i: int|
        0 <= i < c.len() ==> describes(
            #[trigger] c[i],
            scope,
            direction,
            default_id,
            probes[sources_upto(scope, direction, probes, n)[i]],
        )
}

// ---------------------------------------------------------------------------
// Executable scan
// ---------------------------------------------------------------------------

proof fn lemma_warnings_view_push(ws: Seq<AudioScanWarning>, w: AudioScanWarning)
    ensures
        warnings_view(ws.push(w)) == warnings_view(ws).push(warning_view(w)),
{
    assert(warnings_view(ws.push(w)) =~= warnings_view(ws).push(warning_view(w)));
}

/// One more device either adds its record to `after` or leaves it as it was.
proof fn lemma_collected_step(
    scope: ScanScope,
    direction: AudioDirection,
    default_id: Option<String>,
    probes: Seq<DeviceProbe>,
    n: int,
    before: Seq<AudioDeviceDescriptor>,
    after: Seq<AudioDeviceDescriptor>,
)
    requires
        0 <= n < probes.len(),
        collected(scope, direction, default_id, probes, n, before),
        listed_in(scope, direction, probes[n]) ==> after.len() == before.len() + 1 && after.drop_last() == before
            && describes(after.last(), scope, direction, default_id, probes[n]),
        !listed_in(scope, direction, probes[n]) ==> after == before,
    ensures
        collected(scope, direction, default_id, probes, n + 1, after),
{
    let old_sources = sources_upto(scope, direction, probes, n);
    let new_sources = sources_upto(scope, direction, probes, n + 1);
    if listed_in(scope, direction, probes[n]) {
        assert(new_sources == old_sources.push(n));
        assert forall|i: int| 0 <= i < after.len() implies describes(
            #[trigger] after[i],
            scope,
            direction,
            default_id,
            probes[new_sources[i]],
        ) by {
            if i < before.len() {
                assert(after[i] == before[i]);
                assert(new_sources[i] == old_sources[i]);
            }
        }
    } else {
        assert(new_sources == old_sources);
    }
}

fn push_warning(warnings: &mut Vec<AudioScanWarning>, w: AudioScanWarning)
    ensures
        warnings_view(final(warnings)@) == warnings_view(old(warnings)@).push(warning_view(w)),
{
    proof {
        lemma_warnings_view_push(warnings@, w);
    }
    warnings.push(w);
}

fn reads(scope: ScanScope, direction: AudioDirection) -> (r: bool)
    ensures
        r == scope_reads(scope, direction),
{
    match scope {
        ScanScope::Inputs => match direction {
            AudioDirection::Input => true,
            AudioDirection::Output => false,
        },
        ScanScope::Outputs => match direction {
            AudioDirection::Input => false,
            AudioDirection::Output => true,
        },
        ScanScope::Both => true,
    }
}

fn warning_direction(scope: ScanScope) -> (d: Option<AudioDirection>)
    ensures
        d == scope_direction(scope),
{
    match scope {
        ScanScope::Inputs => Some(AudioDirection::Input),
        ScanScope::Outputs => Some(AudioDirection::Output),
        ScanScope::Both => None,
    }
}

fn push_noun(text: &mut String, scope: ScanScope)
    ensures
        final(text)@ == old(text)@ + scope_noun(scope),
{
    match scope {
        ScanScope::Inputs => push_str(text, "input"),
        ScanScope::Outputs => push_str(text, "output"),
        ScanScope::Both => push_str(text, "audio"),
    }
}

fn id_warning(scope: ScanScope, error: &String) -> (w: AudioScanWarning)
    ensures
        warning_view(w) == (None::<Seq<char>>, scope_direction(scope), id_warning_text(scope, error@)),
{
    let mut message = "ignored an ".to_owned();
    push_noun(&mut message, scope);
    push_str(&mut message, " device without a usable host ID: ");
    push_str(&mut message, error.as_str());
    AudioScanWarning { device_id: None, direction: warning_direction(scope), message }
}

/// The metadata a device is listed with, and the warning when the host
/// could not read it.
fn resolve_metadata(scope: ScanScope, id: &String, metadata: &Result<DeviceMetadata, String>) -> (r: (
    DeviceMetadata,
    Option<AudioScanWarning>,
))
    ensures
        metadata_view(r.0) == resolved_metadata(scope, *metadata),
        match r.1 {
            None => metadata_warnings(scope, id@, *metadata) == Seq::<
                (Option<Seq<char>>, Option<AudioDirection>, Seq<char>),
            >::empty(),
            Some(w) => metadata_warnings(scope, id@, *metadata) == seq![warning_view(w)],
        },
{
    match metadata {
        Ok(m) => {
            let manufacturer = match &m.manufacturer {
                Some(text) => Some(text.clone()),
                None => None,
            };
            let copy = DeviceMetadata {
                name: m.name.clone(),
                manufacturer,
                device_type: m.device_type.clone(),
                interface_type: m.interface_type.clone(),
            };
            (copy, None)
        },
        Err(error) => {
            let mut message = match scope {
                ScanScope::Both => "device metadata was unavailable: ".to_owned(),
                _ => {
                    let mut text = String::new();
                    push_noun(&mut text, scope);
                    push_str(&mut text, " device metadata was unavailable: ");
                    proof {
                        assert(Seq::<char>::empty() + scope_noun(scope) == scope_noun(scope));
                    }
                    text
                },
            };
            push_str(&mut message, error.as_str());
            let name = match scope {
                ScanScope::Inputs => "Audio input (metadata unavailable)".to_owned(),
                ScanScope::Outputs => "Audio output (metadata unavailable)".to_owned(),
                ScanScope::Both => "Audio device (metadata unavailable)".to_owned(),
            };
            let fallback = DeviceMetadata {
                name,
                manufacturer: None,
                device_type: "unknown".to_owned(),
                interface_type: "unknown".to_owned(),
            };
            let warning = AudioScanWarning {
                device_id: Some(id.clone()),
                direction: warning_direction(scope),
                message,
            };
            (fallback, Some(warning))
        },
    }
}

fn matches_default(default_id: &Option<String>, id: &String) -> (b: bool)
    ensures
        b == is_default_id(*default_id, id@),
{
    match default_id {
        Some(d) => {
            let left = chars_of(d.as_str());
            let right = chars_of(id.as_str());
            match compare_chars(&left, &right) {
                Order3::Equal => true,
                _ => false,
            }
        },
        None => false,
    }
}

/// Reads one direction of a device: a non-empty listing adds its record, a
/// failed query adds a warning, an unsupported direction adds nothing.
fn read_listing(
    direction: AudioDirection,
    id: &String,
    metadata: &DeviceMetadata,
    is_default: bool,
    rate: Option<u32>,
    listing: &ConfigListing,
    entries: &mut Vec<AudioDeviceDescriptor>,
    warnings: &mut Vec<AudioScanWarning>,
)
    ensures
        match *listing {
            ConfigListing::Listed(ranges) => {
                &&& final(warnings)@ == old(warnings)@
                &&& ranges@.len() == 0 ==> final(entries)@ == old(entries)@
                &&& ranges@.len() > 0 ==> {
                    &&& final(entries)@.len() == old(entries)@.len() + 1
                    &&& final(entries)@.drop_last() == old(entries)@
                    &&& entry_fields(final(entries)@.last(), id@, metadata_view(*metadata), is_default, rate, ranges@)
                }
            },
            ConfigListing::Unsupported => final(entries)@ == old(entries)@ && final(warnings)@ == old(warnings)@,
            ConfigListing::Failed(e) => {
                &&& final(entries)@ == old(entries)@
                &&& warnings_view(final(warnings)@) == warnings_view(old(warnings)@).push(
                    (Some(id@), Some(direction), listing_failure_text(direction, e@)),
                )
            },
        },
{
    match listing {
        ConfigListing::Listed(ranges) => {
            match direction_project_configs(ranges) {
                Some(configurations) => {
                    let d = descriptor(id.as_str(), metadata, is_default, rate, configurations);
                    let ghost before = entries@;
                    entries.push(d);
                    proof {
                        assert(entries@.drop_last() == before);
                    }
                },
                None => {},
            }
        },
        ConfigListing::Unsupported => {},
        ConfigListing::Failed(error) => {
            let mut message = match direction {
                AudioDirection::Input => "input".to_owned(),
                AudioDirection::Output => "output".to_owned(),
            };
            push_str(&mut message, " configurations were unavailable: ");
            push_str(&mut message, error.as_str());
            let direction_copy = match direction {
                AudioDirection::Input => AudioDirection::Input,
                AudioDirection::Output => AudioDirection::Output,
            };
            push_warning(warnings, AudioScanWarning { device_id: Some(id.clone()), direction: Some(direction_copy), message });
        },
    }
}

/// Assembles the inventory of one scan from what each enumerated device
/// reported, in enumeration order. A device without an ID is skipped with a
/// warning; unreadable metadata gives a placeholder name and a warning; in
/// each direction the scan reads, a device that reports at least one range
/// is listed with its project-rate configurations, a failed query becomes a
/// warning and an unsupported direction is passed over. Both lists are then
/// put in presentation order.
pub fn inventory_from_probes(
    host: String,
    scope: ScanScope,
    default_input_id: &Option<String>,
    default_output_id: &Option<String>,
    probes: &Vec<DeviceProbe>,
) -> (inventory: AudioDeviceInventory)
    ensures
        inventory.host@ == host@,
        inventory.sample_rate_hz == PROJECT_SAMPLE_RATE_HZ,
        warnings_view(inventory.warnings@) == warnings_upto(scope, probes@, probes@.len() as int),
        exists|c: Seq<AudioDeviceDescriptor>|
            #[trigger] collected(scope, AudioDirection::Input, *default_input_id, probes@, probes@.len() as int, c)
                && inventory.inputs@.to_multiset() == c.to_multiset() && forall|d: AudioDeviceDescriptor|
                #[trigger] ties_of(inventory.inputs@, d) == ties_of(c, d),
        exists|c: Seq<AudioDeviceDescriptor>|
            #[trigger] collected(scope, AudioDirection::Output, *default_output_id, probes@, probes@.len() as int, c)
                && inventory.outputs@.to_multiset() == c.to_multiset() && forall|d: AudioDeviceDescriptor|
                #[trigger] ties_of(inventory.outputs@, d) == ties_of(c, d),
        devices_in_order(inventory.inputs@),
        devices_in_order(inventory.outputs@),
{
    let mut inputs: Vec<AudioDeviceDescriptor> = Vec::new();
    let mut outputs: Vec<AudioDeviceDescriptor> = Vec::new();
    let mut warnings: Vec<AudioScanWarning> = Vec::new();
    proof {
        assert(warnings_view(warnings@) =~= warnings_upto(scope, probes@, 0));
    }
    let mut i: usize = 0;
    while i < probes.len()
        invariant
            i <= probes@.len(),
            warnings_view(warnings@) == warnings_upto(scope, probes@, i as int),
            collected(scope, AudioDirection::Input, *default_input_id, probes@, i as int, inputs@),
            collected(scope, AudioDirection::Output, *default_output_id, probes@, i as int, outputs@),
        decreases probes@.len() - i,
    {
        let probe = &probes[i];
        let ghost warnings_before = warnings_view(warnings@);
        let ghost inputs_before = inputs@;
        let ghost outputs_before = outputs@;
        match &probe.id {
            Err(error) => {
                push_warning(&mut warnings, id_warning(scope, error));
                proof {
                    assert(probe_warnings(scope, *probe) == seq![(None::<Seq<char>>, scope_direction(scope), id_warning_text(scope, error@))]);
                }
            },
            Ok(id) => {
                let (metadata, metadata_warning) = resolve_metadata(scope, id, &probe.metadata);
                match metadata_warning {
                    Some(w) => push_warning(&mut warnings, w),
                    None => {},
                }
                let ghost after_metadata = warnings_view(warnings@);
                proof {
                    assert(after_metadata == warnings_before + metadata_warnings(scope, id@, probe.metadata));
                }
                if reads(scope, AudioDirection::Input) {
                    let is_default = matches_default(default_input_id, id);
                    read_listing(
                        AudioDirection::Input,
                        id,
                        &metadata,
                        is_default,
                        probe.current_input_rate_hz,
                        &probe.input,
                        &mut inputs,
                        &mut warnings,
                    );
                }
                let ghost after_input = warnings_view(warnings@);
                proof {
                    assert(after_input == after_metadata + listing_warnings(scope, AudioDirection::Input, id@, probe.input));
                }
                if reads(scope, AudioDirection::Output) {
                    let is_default = matches_default(default_output_id, id);
                    read_listing(
                        AudioDirection::Output,
                        id,
                        &metadata,
                        is_default,
                        probe.current_output_rate_hz,
                        &probe.output,
                        &mut outputs,
                        &mut warnings,
                    );
                }
                proof {
                    assert(warnings_view(warnings@) == after_input + listing_warnings(scope, AudioDirection::Output, id@, probe.output));
                    assert(warnings_view(warnings@) == warnings_before + probe_warnings(scope, *probe));
                }
            },
        }
        proof {
            lemma_collected_step(scope, AudioDirection::Input, *default_input_id, probes@, i as int, inputs_before, inputs@);
            lemma_collected_step(scope, AudioDirection::Output, *default_output_id, probes@, i as int, outputs_before, outputs@);
        }
        i += 1;
    }
    let ghost unsorted_inputs = inputs@;
    let ghost unsorted_outputs = outputs@;
    sort_devices(&mut inputs);
    sort_devices(&mut outputs);
    AudioDeviceInventory { host, sample_rate_hz: PROJECT_SAMPLE_RATE_HZ, inputs, outputs, warnings }
}

proof fn lemma_input_scan_has_no_output_sources(probes: Seq<DeviceProbe>, n: int)
    ensures
        sources_upto(ScanScope::Inputs, AudioDirection::Output, probes, n).len() == 0,
        forall|k: int|
            0 <= k < warnings_upto(ScanScope::Inputs, probes, n).len() ==> (#[trigger] warnings_upto(
                ScanScope::Inputs,
                probes,
                n,
            )[k]).1 == Some(AudioDirection::Input),
    decreases n,
{
    if n > 0 {
        lemma_input_scan_has_no_output_sources(probes, n - 1);
        let earlier = warnings_upto(ScanScope::Inputs, probes, n - 1);
        let own = probe_warnings(ScanScope::Inputs, probes[n - 1]);
        let all = warnings_upto(ScanScope::Inputs, probes, n);
        assert(all == earlier + own);
        assert forall|k: int| 0 <= k < all.len() implies (#[trigger] all[k]).1 == Some(AudioDirection::Input) by {
            if k < earlier.len() {
                assert(all[k] == earlier[k]);
            } else {
                assert(all[k] == own[k - earlier.len()]);
            }
        }
    }
}

/// An input-only scan lists no output device, and every warning it files is
/// filed under the input direction.
pub proof fn lemma_input_scan_ignores_outputs(
    probes: Seq<DeviceProbe>,
    default_output_id: Option<String>,
    outputs: Seq<AudioDeviceDescriptor>,
)
    requires
        collected(ScanScope::Inputs, AudioDirection::Output, default_output_id, probes, probes.len() as int, outputs),
    ensures
        outputs.len() == 0,
        forall|k: int|
            0 <= k < warnings_upto(ScanScope::Inputs, probes, probes.len() as int).len() ==> (#[trigger] warnings_upto(
                ScanScope::Inputs,
                probes,
                probes.len() as int,
            )[k]).1 == Some(AudioDirection::Input),
{
    lemma_input_scan_has_no_output_sources(probes, probes.len() as int);
}

/// The error when the host cannot enumerate its devices at all.
pub fn enumeration_error(host: &str, scope: ScanScope, error: &str) -> (e: AudioIoError)
    ensures
        e@ == enumeration_error_text(host@, scope, error@),
{
    let mut message = "could not enumerate ".to_owned();
    push_str(&mut message, host);
    push_str(&mut message, " ");
    push_noun(&mut message, scope);
    push_str(&mut message, " devices: ");
    push_str(&mut message, error);
    AudioIoError::from_message(message)
}

} // verus!
