//! Stream-configuration filtering and selection, and the order in which
//! discovered devices are presented.
//!
//! A configuration range is described by [`StreamConfigRange`], the plain
//! values the host backend reports for one supported range.

use vstd::prelude::*;
use crate::audio::{AudioDeviceDescriptor, ProjectStreamConfig, PROJECT_SAMPLE_RATE_HZ};
use crate::text::{chars_less, chars_of, compare_chars, lemma_chars_less_asymmetric,
    lemma_chars_less_irreflexive, lemma_chars_less_total, lemma_chars_less_transitive, Order3};

verus! {

broadcast use vstd::seq_lib::group_to_multiset_ensures;

/// A sample encoding a backend can report.
#[derive(Clone, Copy, Debug, PartialEq, Eq)]
pub enum SampleFormat {
    I8,
    I16,
    I24,
    I32,
    I64,
    U8,
    U16,
    U24,
    U32,
    U64,
    F32,
    F64,
    DsdU8,
    DsdU16,
    DsdU32,
    /// An encoding this project does not recognise.
    Unrecognized,
}

/// The buffer sizes a range supports, when the backend can tell.
#[derive(Clone, Copy, Debug, PartialEq, Eq)]
pub enum BufferSizeRange {
    Range { min: u32, max: u32 },
    Unknown,
}

/// One supported stream-configuration range as reported by the backend.
#[derive(Clone, Debug, PartialEq, Eq)]
pub struct StreamConfigRange {
    pub channels: u16,
    pub min_sample_rate_hz: u32,
    pub max_sample_rate_hz: u32,
    pub buffer_size: BufferSizeRange,
    pub sample_format: SampleFormat,
    /// The backend's own name for the encoding, as persisted in projects.
    pub sample_format_name: String,
}

pub open spec fn contains_rate(range: StreamConfigRange, rate_hz: u32) -> bool {
    range.min_sample_rate_hz <= rate_hz <= range.max_sample_rate_hz
}

pub open spec fn spec_is_supported_pcm_format(format: SampleFormat) -> bool {
    !(format is DsdU8 || format is DsdU16 || format is DsdU32 || format is Unrecognized)
}

/// Integer and floating-point PCM encodings; DSD and unknown encodings are not PCM.
pub fn is_supported_pcm_format(format: SampleFormat) -> (supported: bool)
    ensures
        supported == spec_is_supported_pcm_format(format),
{
    match format {
        SampleFormat::I8 | SampleFormat::I16 | SampleFormat::I24 | SampleFormat::I32 | SampleFormat::I64
        | SampleFormat::U8 | SampleFormat::U16 | SampleFormat::U24 | SampleFormat::U32 | SampleFormat::U64
        | SampleFormat::F32 | SampleFormat::F64 => true,
        _ => false,
    }
}

pub open spec fn spec_sample_format_priority(format: SampleFormat) -> u8 {
    match format {
        SampleFormat::F32 => 0,
        SampleFormat::F64 => 1,
        SampleFormat::I32 => 2,
        SampleFormat::I24 => 3,
        SampleFormat::I16 => 4,
        SampleFormat::I8 => 5,
        SampleFormat::U32 => 6,
        SampleFormat::U24 => 7,
        SampleFormat::U16 => 8,
        SampleFormat::U8 => 9,
        SampleFormat::I64 => 10,
        SampleFormat::U64 => 11,
        _ => 255,
    }
}

/// Preference among encodings: floating point first, then wider integers.
pub fn sample_format_priority(format: SampleFormat) -> (priority: u8)
    ensures
        priority == spec_sample_format_priority(format),
{
    match format {
        SampleFormat::F32 => 0,
        SampleFormat::F64 => 1,
        SampleFormat::I32 => 2,
        SampleFormat::I24 => 3,
        SampleFormat::I16 => 4,
        SampleFormat::I8 => 5,
        SampleFormat::U32 => 6,
        SampleFormat::U24 => 7,
        SampleFormat::U16 => 8,
        SampleFormat::U8 => 9,
        SampleFormat::I64 => 10,
        SampleFormat::U64 => 11,
        _ => 255,
    }
}

// ---------------------------------------------------------------------------
// Choosing one configuration
// ---------------------------------------------------------------------------

/// A range that can be opened with `minimum_channels` or more channels at
/// `sample_rate_hz` in a PCM encoding.
pub open spec fn selectable(range: StreamConfigRange, minimum_channels: nat, sample_rate_hz: u32) -> bool {
    &&& range.channels >= minimum_channels
    &&& contains_rate(range, sample_rate_hz)
    &&& spec_is_supported_pcm_format(range.sample_format)
}

/// Fewer channels first, then the preferred encoding.
pub open spec fn priority_less(a: StreamConfigRange, b: StreamConfigRange) -> bool {
    a.channels < b.channels || (a.channels == b.channels && spec_sample_format_priority(a.sample_format)
        < spec_sample_format_priority(b.sample_format))
}

/// The first selectable range of least priority, or `None` when none is selectable.
pub open spec fn is_first_minimum(ranges: Seq<StreamConfigRange>, minimum_channels: nat, sample_rate_hz: u32, choice: Option<usize>) -> bool {
    match choice {
        None => forall|j: int| 0 <= j < ranges.len() ==> !selectable(#[trigger] ranges[j], minimum_channels, sample_rate_hz),
        Some(k) => {
            &&& k < ranges.len()
            &&& selectable(ranges[k as int], minimum_channels, sample_rate_hz)
            &&& forall|j: int| 0 <= j < ranges.len() && selectable(#[trigger] ranges[j], minimum_channels, sample_rate_hz)
                ==> !priority_less(ranges[j], ranges[k as int])
            &&& forall|j: int| 0 <= j < k && selectable(#[trigger] ranges[j], minimum_channels, sample_rate_hz)
                ==> priority_less(ranges[k as int], ranges[j])
        },
    }
}

/// The chosen range has the fewest channels of all ranges that could be
/// opened (enough channels, the exact rate, a PCM encoding); only between
/// ranges of equally many channels does the preferred encoding decide, and
/// no range reported earlier is as good.
pub proof fn lemma_selection_takes_fewest_channels_then_preferred_encoding(
    ranges: Seq<StreamConfigRange>,
    minimum_channels: nat,
    sample_rate_hz: u32,
    k: usize,
    j: int,
)
    requires
        is_first_minimum(ranges, minimum_channels, sample_rate_hz, Some(k)),
        0 <= j < ranges.len(),
        ranges[j].channels >= minimum_channels,
        ranges[j].min_sample_rate_hz <= sample_rate_hz <= ranges[j].max_sample_rate_hz,
        spec_is_supported_pcm_format(ranges[j].sample_format),
    ensures
        ranges[k as int].channels <= ranges[j].channels,
        ranges[k as int].channels == ranges[j].channels ==> spec_sample_format_priority(ranges[k as int].sample_format)
            <= spec_sample_format_priority(ranges[j].sample_format),
        j < k ==> ranges[k as int].channels < ranges[j].channels || spec_sample_format_priority(
            ranges[k as int].sample_format,
        ) < spec_sample_format_priority(ranges[j].sample_format),
{
    assert(selectable(ranges[j], minimum_channels, sample_rate_hz));
}

/// Nothing is chosen only when no range could be opened.
pub proof fn lemma_selection_is_none_only_without_candidates(
    ranges: Seq<StreamConfigRange>,
    minimum_channels: nat,
    sample_rate_hz: u32,
    j: int,
)
    requires
        is_first_minimum(ranges, minimum_channels, sample_rate_hz, None),
        0 <= j < ranges.len(),
    ensures
        !(ranges[j].channels >= minimum_channels && ranges[j].min_sample_rate_hz <= sample_rate_hz
            <= ranges[j].max_sample_rate_hz && spec_is_supported_pcm_format(ranges[j].sample_format)),
{
    assert(!selectable(ranges[j], minimum_channels, sample_rate_hz));
}

fn is_selectable(range: &StreamConfigRange, minimum_channels: u32, sample_rate_hz: u32) -> (b: bool)
    ensures
        b == selectable(*range, minimum_channels as nat, sample_rate_hz),
{
    range.channels as u32 >= minimum_channels && range.min_sample_rate_hz <= sample_rate_hz && sample_rate_hz
        <= range.max_sample_rate_hz && is_supported_pcm_format(range.sample_format)
}

fn is_priority_less(a: &StreamConfigRange, b: &StreamConfigRange) -> (less: bool)
    ensures
        less == priority_less(*a, *b),
{
    a.channels < b.channels || (a.channels == b.channels && sample_format_priority(a.sample_format)
        < sample_format_priority(b.sample_format))
}

fn select_lowest_priority(ranges: &Vec<StreamConfigRange>, minimum_channels: u32, sample_rate_hz: u32) -> (choice: Option<usize>)
    ensures
        is_first_minimum(ranges@, minimum_channels as nat, sample_rate_hz, choice),
{
    let mut best: Option<usize> = None;
    let mut i: usize = 0;
    while i < ranges.len()
        invariant
            i <= ranges@.len(),
            is_first_minimum(ranges@.take(i as int), minimum_channels as nat, sample_rate_hz, best),
        decreases ranges@.len() - i,
    {
        let ghost prefix = ranges@.take(i as int);
        let ghost extended = ranges@.take(i + 1);
        assert(forall|j: int| 0 <= j < i ==> extended[j] == prefix[j]);
        if is_selectable(&ranges[i], minimum_channels, sample_rate_hz) {
            match best {
                None => {
                    best = Some(i);
                },
                Some(k) => {
                    if is_priority_less(&ranges[i], &ranges[k]) {
                        best = Some(i);
                    }
                },
            }
        }
        i += 1;
    }
    assert(ranges@.take(i as int) == ranges@);
    best
}

/// The range to open for capture: the fewest channels that still contain
/// channel `input_channel_index`, at 48 kHz, in the preferred PCM encoding;
/// ties go to the first range reported.
pub fn select_project_input_config(ranges: &Vec<StreamConfigRange>, input_channel_index: u16) -> (choice: Option<usize>)
    ensures
        is_first_minimum(ranges@, input_channel_index as nat + 1, PROJECT_SAMPLE_RATE_HZ, choice),
{
    select_lowest_priority(ranges, input_channel_index as u32 + 1, PROJECT_SAMPLE_RATE_HZ)
}

/// The range to open for playback: at least `minimum_channels` channels at
/// exactly `sample_rate_hz` (never a neighbouring rate), in the narrowest
/// width and preferred PCM encoding; ties go to the first range reported.
pub fn select_output_config(ranges: &Vec<StreamConfigRange>, minimum_channels: u16, sample_rate_hz: u32) -> (choice: Option<usize>)
    ensures
        is_first_minimum(ranges@, minimum_channels as nat, sample_rate_hz, choice),
{
    select_lowest_priority(ranges, minimum_channels as u32, sample_rate_hz)
}


// ---------------------------------------------------------------------------
// The 48 kHz configurations of a device, sorted and without repeats
// ---------------------------------------------------------------------------

/// A configuration as a value: rate, channels, encoding name, buffer bounds.
pub type ConfigView = (u32, u16, Seq<char>, Option<u32>, Option<u32>);

impl View for ProjectStreamConfig {
    type V = ConfigView;

    open spec fn view(&self) -> ConfigView {
        (
            self.sample_rate_hz,
            self.channels,
            self.sample_format@,
            self.minimum_buffer_size_frames,
            self.maximum_buffer_size_frames,
        )
    }
}

/// `None` before every `Some`, then by value.
pub open spec fn option_less(a: Option<u32>, b: Option<u32>) -> bool {
    match (a, b) {
        (None, Some(_)) => true,
        (Some(x), Some(y)) => x < y,
        _ => false,
    }
}

/// The field-by-field order of configurations.
pub open spec fn config_less(a: ConfigView, b: ConfigView) -> bool {
    if a.0 != b.0 {
        a.0 < b.0
    } else if a.1 != b.1 {
        a.1 < b.1
    } else if a.2 != b.2 {
        chars_less(a.2, b.2)
    } else if a.3 != b.3 {
        option_less(a.3, b.3)
    } else {
        option_less(a.4, b.4)
    }
}

proof fn lemma_config_less_transitive(a: ConfigView, b: ConfigView, c: ConfigView)
    requires
        config_less(a, b),
        config_less(b, c),
    ensures
        config_less(a, c),
{
    if a.0 == b.0 && b.0 == c.0 && a.1 == b.1 && b.1 == c.1 {
        if a.2 != b.2 && b.2 != c.2 {
            lemma_chars_less_transitive(a.2, b.2, c.2);
            if a.2 == c.2 {
                lemma_chars_less_asymmetric(a.2, b.2);
            }
        }
    }
}

proof fn lemma_config_less_irreflexive(a: ConfigView)
    ensures
        !config_less(a, a),
{
}

proof fn lemma_config_less_total(a: ConfigView, b: ConfigView)
    ensures
        a == b || config_less(a, b) || config_less(b, a),
{
    lemma_chars_less_total(a.2, b.2);
}

/// A sequence of configurations in strictly increasing order.
pub open spec fn strictly_increasing(s: Seq<ProjectStreamConfig>) -> bool {
    forall|i: int, j: int| 0 <= i < j < s.len() ==> config_less(#[trigger] s[i]@, #[trigger] s[j]@)
}

/// The project configuration a 48 kHz-capable range reports.
pub open spec fn project_view(range: StreamConfigRange) -> ConfigView {
    (
        PROJECT_SAMPLE_RATE_HZ,
        range.channels,
        range.sample_format_name@,
        match range.buffer_size {
            BufferSizeRange::Range { min, max } => Some(min),
            BufferSizeRange::Unknown => None,
        },
        match range.buffer_size {
            BufferSizeRange::Range { min, max } => Some(max),
            BufferSizeRange::Unknown => None,
        },
    )
}

/// `v` is the project configuration of some range of `ranges` that contains 48 kHz.
pub open spec fn reported_at_project_rate(ranges: Seq<StreamConfigRange>, v: ConfigView) -> bool {
    exists|j: int| 0 <= j < ranges.len() && contains_rate(ranges[j], PROJECT_SAMPLE_RATE_HZ)
        && #[trigger] project_view(ranges[j]) == v
}

pub open spec fn listed(s: Seq<ProjectStreamConfig>, v: ConfigView) -> bool {
    exists|i: int| 0 <= i < s.len() && #[trigger] s[i]@ == v
}

fn project_config(range: &StreamConfigRange) -> (config: ProjectStreamConfig)
    ensures
        config@ == project_view(*range),
{
    let (minimum_buffer_size_frames, maximum_buffer_size_frames) = match range.buffer_size {
        BufferSizeRange::Range { min, max } => (Some(min), Some(max)),
        BufferSizeRange::Unknown => (None, None),
    };
    ProjectStreamConfig {
        sample_rate_hz: PROJECT_SAMPLE_RATE_HZ,
        channels: range.channels,
        sample_format: range.sample_format_name.clone(),
        minimum_buffer_size_frames,
        maximum_buffer_size_frames,
    }
}

fn option_compare(a: Option<u32>, b: Option<u32>) -> (o: Order3)
    ensures
        o is Less <==> option_less(a, b),
        o is Equal <==> a == b,
        o is Greater <==> option_less(b, a),
{
    match (a, b) {
        (None, None) => Order3::Equal,
        (None, Some(_)) => Order3::Less,
        (Some(_), None) => Order3::Greater,
        (Some(x), Some(y)) => if x < y {
            Order3::Less
        } else if x == y {
            Order3::Equal
        } else {
            Order3::Greater
        },
    }
}

fn config_compare(a: &ProjectStreamConfig, b: &ProjectStreamConfig) -> (o: Order3)
    ensures
        o is Less <==> config_less(a@, b@),
        o is Equal <==> a@ == b@,
        o is Greater <==> config_less(b@, a@),
{
    proof {
        lemma_config_less_total(a@, b@);
        lemma_chars_less_irreflexive(a@.2);
        lemma_chars_less_irreflexive(b@.2);
        if config_less(a@, b@) && config_less(b@, a@) {
            lemma_config_less_transitive(a@, b@, a@);
        }
    }
    if a.sample_rate_hz != b.sample_rate_hz {
        return if a.sample_rate_hz < b.sample_rate_hz {
            Order3::Less
        } else {
            Order3::Greater
        };
    }
    if a.channels != b.channels {
        return if a.channels < b.channels {
            Order3::Less
        } else {
            Order3::Greater
        };
    }
    let left = chars_of(a.sample_format.as_str());
    let right = chars_of(b.sample_format.as_str());
    match compare_chars(&left, &right) {
        Order3::Less => {
            return Order3::Less;
        },
        Order3::Greater => {
            return Order3::Greater;
        },
        Order3::Equal => {},
    }
    match option_compare(a.minimum_buffer_size_frames, b.minimum_buffer_size_frames) {
        Order3::Less => {
            return Order3::Less;
        },
        Order3::Greater => {
            return Order3::Greater;
        },
        Order3::Equal => {},
    }
    option_compare(a.maximum_buffer_size_frames, b.maximum_buffer_size_frames)
}

/// Inserts `config` into a strictly increasing list unless an equal
/// configuration is already present.
fn insert_unique(list: &mut Vec<ProjectStreamConfig>, config: ProjectStreamConfig)
    requires
        strictly_increasing(old(list)@),
    ensures
        strictly_increasing(final(list)@),
        forall|v: ConfigView| listed(final(list)@, v) <==> (listed(old(list)@, v) || v == config@),
{
    let mut position: usize = 0;
    let mut equal = false;
    while position < list.len()
        invariant_except_break
            !equal,
        invariant
            position <= list@.len(),
            list@ == old(list)@,
            forall|i: int| 0 <= i < position ==> config_less(#[trigger] list@[i]@, config@),
        ensures
            position <= list@.len(),
            forall|i: int| 0 <= i < position ==> config_less(#[trigger] list@[i]@, config@),
            equal ==> position < list@.len() && list@[position as int]@ == config@,
            !equal ==> position == list@.len() || config_less(config@, list@[position as int]@),
        decreases list@.len() - position,
    {
        match config_compare(&list[position], &config) {
            Order3::Less => {
                position += 1;
            },
            Order3::Equal => {
                equal = true;
                break;
            },
            Order3::Greater => {
                break;
            },
        }
    }
    let ghost before = list@;
    if equal {
        proof {
            assert forall|v: ConfigView| listed(list@, v) <==> (listed(before, v) || v == config@) by {
                if v == config@ {
                    assert(list@[position as int]@ == v);
                }
            }
        }
        return;
    }
    let ghost inserted = config@;
    list.insert(position, config);
    proof {
        assert forall|i: int, j: int| 0 <= i < j < list@.len() implies config_less(#[trigger] list@[i]@, #[trigger] list@[j]@) by {
            if j < position {
                assert(list@[i] == before[i] && list@[j] == before[j]);
            } else if j == position {
                assert(list@[i] == before[i]);
            } else if i == position {
                assert(list@[j] == before[j - 1]);
                if j - 1 > position {
                    assert(config_less(before[position as int]@, before[j - 1]@));
                    lemma_config_less_transitive(inserted, before[position as int]@, before[j - 1]@);
                }
            } else if i < position {
                assert(list@[i] == before[i] && list@[j] == before[j - 1]);
                if j - 1 > position {
                    assert(config_less(before[position as int]@, before[j - 1]@));
                    lemma_config_less_transitive(inserted, before[position as int]@, before[j - 1]@);
                }
                lemma_config_less_transitive(before[i]@, inserted, before[j - 1]@);
            } else {
                assert(list@[i] == before[i - 1] && list@[j] == before[j - 1]);
            }
        }
        assert(before == old(list)@);
        assert(inserted == config@);
        assert forall|v: ConfigView| listed(list@, v) <==> (listed(before, v) || v == inserted) by {
            if listed(before, v) {
                let k = choose|k: int| 0 <= k < before.len() && #[trigger] before[k]@ == v;
                if k < position {
                    assert(list@[k]@ == v);
                } else {
                    assert(list@[k + 1]@ == v);
                }
            }
            if v == inserted {
                assert(list@[position as int]@ == v);
            }
            if listed(list@, v) {
                let k = choose|k: int| 0 <= k < list@.len() && #[trigger] list@[k]@ == v;
                if k < position {
                    assert(before[k]@ == v);
                } else if k > position {
                    assert(before[k - 1]@ == v);
                }
            }
        }
        assert(forall|v: ConfigView| listed(list@, v) <==> (listed(old(list)@, v) || v == config@));
    }
}

/// The configurations of a device at the project rate: every reported range
/// that contains 48 kHz, as a strictly increasing list without repeats.
pub fn project_rate_configs(ranges: &Vec<StreamConfigRange>) -> (configs: Vec<ProjectStreamConfig>)
    ensures
        strictly_increasing(configs@),
        forall|v: ConfigView| listed(configs@, v) <==> reported_at_project_rate(ranges@, v),
{
    let mut configs: Vec<ProjectStreamConfig> = Vec::new();
    let mut i: usize = 0;
    while i < ranges.len()
        invariant
            i <= ranges@.len(),
            strictly_increasing(configs@),
            forall|v: ConfigView| listed(configs@, v) <==> reported_at_project_rate(ranges@.take(i as int), v),
        decreases ranges@.len() - i,
    {
        let ghost prefix = ranges@.take(i as int);
        let ghost extended = ranges@.take(i + 1);
        let range = &ranges[i];
        if range.min_sample_rate_hz <= PROJECT_SAMPLE_RATE_HZ && PROJECT_SAMPLE_RATE_HZ <= range.max_sample_rate_hz {
            let config = project_config(range);
            insert_unique(&mut configs, config);
        }
        proof {
            assert forall|v: ConfigView| reported_at_project_rate(extended, v) <==> (reported_at_project_rate(prefix, v)
                || (contains_rate(ranges@[i as int], PROJECT_SAMPLE_RATE_HZ) && project_view(ranges@[i as int]) == v)) by {
                if reported_at_project_rate(prefix, v) {
                    let j = choose|j: int| 0 <= j < prefix.len() && contains_rate(prefix[j], PROJECT_SAMPLE_RATE_HZ)
                        && #[trigger] project_view(prefix[j]) == v;
                    assert(extended[j] == prefix[j]);
                }
                if contains_rate(ranges@[i as int], PROJECT_SAMPLE_RATE_HZ) && project_view(ranges@[i as int]) == v {
                    assert(extended[i as int] == ranges@[i as int]);
                }
                if reported_at_project_rate(extended, v) {
                    let j = choose|j: int| 0 <= j < extended.len() && contains_rate(extended[j], PROJECT_SAMPLE_RATE_HZ)
                        && #[trigger] project_view(extended[j]) == v;
                    if j < i {
                        assert(prefix[j] == extended[j]);
                    }
                }
            }
        }
        i += 1;
    }
    assert(ranges@.take(i as int) == ranges@);
    configs
}

/// Every project configuration runs at the project rate, and a strictly
/// increasing list holds no configuration twice.
pub proof fn lemma_project_configs_are_48k_and_distinct(ranges: Seq<StreamConfigRange>, configs: Seq<ProjectStreamConfig>)
    requires
        strictly_increasing(configs),
        forall|v: ConfigView| listed(configs, v) <==> reported_at_project_rate(ranges, v),
    ensures
        forall|i: int| 0 <= i < configs.len() ==> (#[trigger] configs[i]).sample_rate_hz == PROJECT_SAMPLE_RATE_HZ,
        forall|i: int, j: int| 0 <= i < j < configs.len() ==> #[trigger] configs[i]@ != #[trigger] configs[j]@,
{
    assert forall|i: int| 0 <= i < configs.len() implies (#[trigger] configs[i]).sample_rate_hz == PROJECT_SAMPLE_RATE_HZ by {
        assert(listed(configs, configs[i]@));
        let j = choose|j: int| 0 <= j < ranges.len() && contains_rate(ranges[j], PROJECT_SAMPLE_RATE_HZ)
            && #[trigger] project_view(ranges[j]) == configs[i]@;
    }
    assert forall|i: int, j: int| 0 <= i < j < configs.len() implies #[trigger] configs[i]@ != #[trigger] configs[j]@ by {
        lemma_config_less_irreflexive(configs[i]@);
        lemma_chars_less_irreflexive(configs[i]@.2);
    }
}

/// A direction with no reported range at all is absent (`None`); a reported
/// direction keeps its device visible even when no range contains 48 kHz.
pub fn direction_project_configs(ranges: &Vec<StreamConfigRange>) -> (configs: Option<Vec<ProjectStreamConfig>>)
    ensures
        ranges@.len() == 0 <==> configs is None,
        configs matches Some(c) ==> strictly_increasing(c@)
            && forall|v: ConfigView| listed(c@, v) <==> reported_at_project_rate(ranges@, v),
{
    if ranges.len() == 0 {
        None
    } else {
        Some(project_rate_configs(ranges))
    }
}


// ---------------------------------------------------------------------------
// Device presentation order
// ---------------------------------------------------------------------------

/// What `str::to_lowercase` returns for a string: its full Unicode lowercase
/// mapping.
pub uninterp spec fn unicode_lowercase(s: Seq<char>) -> Seq<char>;

/// `str::to_lowercase`, the Unicode lowercase mapping of `s`. The mapping is
/// a fixed table of the standard library, a function of `s` alone.
#[verifier::external_body]
fn to_lowercase(s: &str) -> (lower: String)
    ensures
        lower@ == unicode_lowercase(s@),
{
    s.to_lowercase()
}

/// The default device first, then by lowercase name, then by ID.
pub open spec fn device_before(a: AudioDeviceDescriptor, b: AudioDeviceDescriptor) -> bool {
    if a.is_default != b.is_default {
        a.is_default
    } else if unicode_lowercase(a.name@) != unicode_lowercase(b.name@) {
        chars_less(unicode_lowercase(a.name@), unicode_lowercase(b.name@))
    } else {
        chars_less(a.id@, b.id@)
    }
}

proof fn lemma_device_before_transitive(a: AudioDeviceDescriptor, b: AudioDeviceDescriptor, c: AudioDeviceDescriptor)
    requires
        device_before(a, b),
        device_before(b, c),
    ensures
        device_before(a, c),
{
    let (la, lb, lc) = (unicode_lowercase(a.name@), unicode_lowercase(b.name@), unicode_lowercase(c.name@));
    if a.is_default == b.is_default && b.is_default == c.is_default {
        if la != lb && lb != lc {
            lemma_chars_less_transitive(la, lb, lc);
            if la == lc {
                lemma_chars_less_asymmetric(la, lb);
            }
        } else if la == lb && lb == lc {
            lemma_chars_less_transitive(a.id@, b.id@, c.id@);
        }
    }
}

proof fn lemma_device_before_asymmetric(a: AudioDeviceDescriptor, b: AudioDeviceDescriptor)
    requires
        device_before(a, b),
    ensures
        !device_before(b, a),
{
    let (la, lb) = (unicode_lowercase(a.name@), unicode_lowercase(b.name@));
    if a.is_default == b.is_default {
        if la != lb {
            lemma_chars_less_asymmetric(la, lb);
        } else {
            lemma_chars_less_asymmetric(a.id@, b.id@);
        }
    }
}

/// No device is listed after one that should come after it.
pub open spec fn devices_in_order(s: Seq<AudioDeviceDescriptor>) -> bool {
    forall|i: int, j: int| 0 <= i < j < s.len() ==> !device_before(#[trigger] s[j], #[trigger] s[i])
}

fn is_device_before(a: &AudioDeviceDescriptor, b: &AudioDeviceDescriptor) -> (before: bool)
    ensures
        before == device_before(*a, *b),
{
    if a.is_default != b.is_default {
        return a.is_default;
    }
    let left = to_lowercase(a.name.as_str());
    let right = to_lowercase(b.name.as_str());
    let left_chars = chars_of(left.as_str());
    let right_chars = chars_of(right.as_str());
    proof {
        lemma_chars_less_irreflexive(left_chars@);
    }
    match compare_chars(&left_chars, &right_chars) {
        Order3::Less => true,
        Order3::Greater => false,
        Order3::Equal => {
            let left_id = chars_of(a.id.as_str());
            let right_id = chars_of(b.id.as_str());
            match compare_chars(&left_id, &right_id) {
                Order3::Less => true,
                _ => false,
            }
        },
    }
}

/// Two devices tie in presentation order: same default flag, same
/// lowercase name and same ID.
pub open spec fn same_sort_key(a: AudioDeviceDescriptor, b: AudioDeviceDescriptor) -> bool {
    &&& a.is_default == b.is_default
    &&& unicode_lowercase(a.name@) == unicode_lowercase(b.name@)
    &&& a.id@ == b.id@
}

/// The devices of `s` that tie with `d`, in their order in `s`.
pub open spec fn ties_of(s: Seq<AudioDeviceDescriptor>, d: AudioDeviceDescriptor) -> Seq<AudioDeviceDescriptor> {
    s.filter(|x: AudioDeviceDescriptor| same_sort_key(x, d))
}

proof fn lemma_no_ties_in(s: Seq<AudioDeviceDescriptor>, d: AudioDeviceDescriptor)
    requires
        forall|i: int| 0 <= i < s.len() ==> !same_sort_key(#[trigger] s[i], d),
    ensures
        ties_of(s, d) == Seq::<AudioDeviceDescriptor>::empty(),
{
    let pred = |x: AudioDeviceDescriptor| same_sort_key(x, d);
    assert(s.all(|x: AudioDeviceDescriptor| !pred(x)));
    s.lemma_all_neg_filter_empty(pred);
}

/// Inserting `device` where the insertion sort puts it places it after every
/// device it ties with.
proof fn lemma_insert_keeps_ties(
    before: Seq<AudioDeviceDescriptor>,
    position: int,
    device: AudioDeviceDescriptor,
    d: AudioDeviceDescriptor,
)
    requires
        devices_in_order(before),
        0 <= position <= before.len(),
        position < before.len() ==> device_before(device, before[position]),
    ensures
        ties_of(before.insert(position, device), d) == (if same_sort_key(device, d) {
            ties_of(before, d).push(device)
        } else {
            ties_of(before, d)
        }),
{
    broadcast use vstd::seq_lib::group_filter_ensures;
    let head = before.subrange(0, position);
    let tail = before.subrange(position, before.len() as int);
    let pred = |x: AudioDeviceDescriptor| same_sort_key(x, d);
    assert(before == head + tail);
    assert(before.insert(position, device) == head.push(device) + tail);
    Seq::filter_distributes_over_add(head, tail, pred);
    Seq::filter_distributes_over_add(head.push(device), tail, pred);
    head.lemma_filter_push(device, pred);
    if same_sort_key(device, d) {
        assert forall|i: int| 0 <= i < tail.len() implies !same_sort_key(#[trigger] tail[i], d) by {
            let j = position + i;
            assert(tail[i] == before[j]);
            if same_sort_key(tail[i], d) {
                lemma_chars_less_irreflexive(before[position].id@);
                lemma_chars_less_irreflexive(unicode_lowercase(before[position].name@));
                assert(device_before(before[j], before[position]));
            }
        }
        lemma_no_ties_in(tail, d);
        assert(ties_of(tail, d) == Seq::<AudioDeviceDescriptor>::empty());
        assert(ties_of(before, d) == ties_of(head, d) + ties_of(tail, d));
        assert(ties_of(before, d) =~= ties_of(head, d));
        assert(ties_of(before.insert(position, device), d) =~= ties_of(head, d).push(device) + ties_of(tail, d));
    } else {
        assert(ties_of(before.insert(position, device), d) == ties_of(head, d) + ties_of(tail, d));
    }
}

/// Orders devices for presentation: the host's default device first, then
/// by case-insensitive name, then by ID. Devices that tie on all three keep
/// their relative order.
pub fn sort_devices(devices: &mut Vec<AudioDeviceDescriptor>)
    ensures
        final(devices)@.to_multiset() == old(devices)@.to_multiset(),
        devices_in_order(final(devices)@),
        forall|d: AudioDeviceDescriptor| #[trigger] ties_of(final(devices)@, d) == ties_of(old(devices)@, d),
{
    let mut pending: Vec<AudioDeviceDescriptor> = Vec::new();
    std::mem::swap(devices, &mut pending);
    let ghost original = pending@;
    let mut sorted: Vec<AudioDeviceDescriptor> = Vec::new();
    proof {
        assert forall|d: AudioDeviceDescriptor| #[trigger] ties_of(original, d) == ties_of(sorted@, d) + ties_of(
            pending@,
            d,
        ) by {
            reveal(Seq::filter);
            assert(ties_of(sorted@, d) == Seq::<AudioDeviceDescriptor>::empty());
            assert(Seq::<AudioDeviceDescriptor>::empty() + ties_of(pending@, d) =~= ties_of(pending@, d));
        }
    }
    while pending.len() > 0
        invariant
            devices_in_order(sorted@),
            sorted@.to_multiset().add(pending@.to_multiset()) == original.to_multiset(),
            forall|d: AudioDeviceDescriptor| #[trigger] ties_of(original, d) == ties_of(sorted@, d) + ties_of(pending@, d),
        decreases pending@.len(),
    {
        let ghost pending_before = pending@;
        let device = pending.remove(0);
        proof {
            assert(pending_before.remove(0) == pending@);
        }
        let mut position: usize = 0;
        while position < sorted.len()
            invariant
                position <= sorted@.len(),
                forall|i: int| 0 <= i < position ==> !device_before(device, #[trigger] sorted@[i]),
            ensures
                position <= sorted@.len(),
                forall|i: int| 0 <= i < position ==> !device_before(device, #[trigger] sorted@[i]),
                position < sorted@.len() ==> device_before(device, sorted@[position as int]),
            decreases sorted@.len() - position,
        {
            if is_device_before(&device, &sorted[position]) {
                break;
            }
            position += 1;
        }
        let ghost before = sorted@;
        let ghost placed = device;
        sorted.insert(position, device);
        proof {
            assert forall|i: int, j: int| 0 <= i < j < sorted@.len() implies !device_before(#[trigger] sorted@[j], #[trigger] sorted@[i]) by {
                if j < position {
                    assert(sorted@[i] == before[i] && sorted@[j] == before[j]);
                } else if j == position {
                    assert(sorted@[i] == before[i]);
                } else if i == position {
                    assert(sorted@[j] == before[j - 1]);
                    if device_before(before[j - 1], placed) {
                        if j - 1 == position {
                            lemma_device_before_asymmetric(placed, before[j - 1]);
                        } else {
                            lemma_device_before_transitive(before[j - 1], placed, before[position as int]);
                        }
                    }
                } else if i < position {
                    assert(sorted@[i] == before[i] && sorted@[j] == before[j - 1]);
                    if device_before(before[j - 1], before[i]) {
                        if j - 1 == position {
                            lemma_device_before_transitive(placed, before[j - 1], before[i]);
                        } else {
                            lemma_device_before_transitive(placed, before[position as int], before[j - 1]);
                            lemma_device_before_transitive(placed, before[j - 1], before[i]);
                        }
                    }
                } else {
                    assert(sorted@[i] == before[i - 1] && sorted@[j] == before[j - 1]);
                }
            }
            assert(sorted@.to_multiset() == before.to_multiset().insert(placed));
            assert(pending_before.to_multiset() == pending@.to_multiset().insert(placed));
            assert(sorted@ == before.insert(position as int, placed));
            assert(pending_before == seq![placed] + pending@);
            assert forall|d: AudioDeviceDescriptor| #[trigger] ties_of(original, d) == ties_of(sorted@, d) + ties_of(
                pending@,
                d,
            ) by {
                assert(ties_of(original, d) == ties_of(before, d) + ties_of(pending_before, d));
                lemma_insert_keeps_ties(before, position as int, placed, d);
                pending@.lemma_filter_prepend(placed, |x: AudioDeviceDescriptor| same_sort_key(x, d));
                if same_sort_key(placed, d) {
                    assert(ties_of(pending_before, d) == seq![placed] + ties_of(pending@, d));
                    assert(ties_of(before, d) + (seq![placed] + ties_of(pending@, d)) =~= ties_of(before, d).push(placed)
                        + ties_of(pending@, d));
                } else {
                    assert(ties_of(pending_before, d) =~= ties_of(pending@, d));
                }
            }
        }
    }
    proof {
        assert(pending@ == Seq::<AudioDeviceDescriptor>::empty());
        assert forall|d: AudioDeviceDescriptor| #[trigger] ties_of(sorted@, d) == ties_of(original, d) by {
            reveal(Seq::filter);
            assert(ties_of(pending@, d) == Seq::<AudioDeviceDescriptor>::empty());
            assert(ties_of(sorted@, d) + Seq::<AudioDeviceDescriptor>::empty() =~= ties_of(sorted@, d));
        }
    }
    *devices = sorted;
}

/// In a presentation order the host's default device, if there is one,
/// comes first.
pub proof fn lemma_default_device_comes_first(devices: Seq<AudioDeviceDescriptor>, k: int)
    requires
        devices_in_order(devices),
        0 <= k < devices.len(),
        devices[k].is_default,
    ensures
        devices[0].is_default,
{
    if k > 0 && !devices[0].is_default {
        assert(device_before(devices[k], devices[0]));
    }
}

/// The name and kind of a device, as its host describes it.
#[derive(Clone, Debug, PartialEq, Eq)]
pub struct DeviceMetadata {
    pub name: String,
    pub manufacturer: Option<String>,
    pub device_type: String,
    pub interface_type: String,
}

fn copy_optional_string(value: &Option<String>) -> (copy: Option<String>)
    ensures
        copy == *value,
{
    match value {
        Some(text) => Some(text.clone()),
        None => None,
    }
}

/// The inventory record of one device.
pub fn descriptor(
    id: &str,
    metadata: &DeviceMetadata,
    is_default: bool,
    current_sample_rate_hz: Option<u32>,
    configurations: Vec<ProjectStreamConfig>,
) -> (d: AudioDeviceDescriptor)
    ensures
        d.id@ == id@,
        d.name == metadata.name,
        d.manufacturer == metadata.manufacturer,
        d.device_type == metadata.device_type,
        d.interface_type == metadata.interface_type,
        d.is_default == is_default,
        d.current_sample_rate_hz == current_sample_rate_hz,
        d.configurations == configurations,
{
    AudioDeviceDescriptor {
        id: id.to_owned(),
        name: metadata.name.clone(),
        manufacturer: copy_optional_string(&metadata.manufacturer),
        device_type: metadata.device_type.clone(),
        interface_type: metadata.interface_type.clone(),
        is_default,
        current_sample_rate_hz,
        configurations,
    }
}

} // verus!
