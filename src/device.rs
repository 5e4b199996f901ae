use vstd::prelude::*;
use vstd::string::*;
use crate::text::{
    ascii_ci_eq, ends_with_ci, ends_with_ci_str, is_trimmed, strip_suffixes_ci, stripped_len_ci,
    trim, trim_end, trim_start, trim_str, contains, contains_str, remove_all, remove_all_str,
};

verus! {

/// Which side of the audio host a capture endpoint is on.
#[derive(Clone, Copy, Debug, PartialEq, Eq, Structural, Hash)]
pub enum DeviceType {
    Input,
    Output,
}

/// A capture endpoint, named as the audio host names it.
#[derive(Clone, Debug, PartialEq, Eq, Hash)]
pub struct AudioDevice {
    pub name: String,
    pub device_type: DeviceType,
}

/// Why a device's human form could not be read.
#[derive(Clone, Copy, Debug, PartialEq, Eq, Structural)]
pub enum DeviceParseError {
    /// Nothing is left for the name.
    EmptyName,
    /// The text ends neither in `(input)` nor in `(output)`.
    MissingKind,
}

/// The run/pause switches of one recorder.
#[derive(Clone, Copy, Debug, PartialEq, Eq, Structural)]
pub struct DeviceControl {
    pub is_running: bool,
    pub is_paused: bool,
}

/// `(input)` or `(output)`.
pub open spec fn kind_label(t: DeviceType) -> Seq<char> {
    match t {
        DeviceType::Input => seq!['(', 'i', 'n', 'p', 'u', 't', ')'],
        DeviceType::Output => seq!['(', 'o', 'u', 't', 'p', 'u', 't', ')'],
    }
}

/// The human form of a device: `<name> (input)` or `<name> (output)`.
pub open spec fn display_of(name: Seq<char>, t: DeviceType) -> Seq<char> {
    name + seq![' '] + kind_label(t)
}

/// The name left once the kind label has been cut off `s`.
pub open spec fn name_before(s: Seq<char>, t: DeviceType) -> Seq<char> {
    trim(strip_suffixes_ci(s, kind_label(t)))
}

pub open spec fn named(name: Seq<char>, t: DeviceType) -> Result<
    (Seq<char>, DeviceType),
    DeviceParseError,
> {
    if name.len() == 0 {
        Err(DeviceParseError::EmptyName)
    } else {
        Ok((name, t))
    }
}

/// What reading the human form `s` gives: the kind comes from the label at
/// the end, matched without regard to ASCII case; the name is what is left
/// before the label, trimmed.
pub open spec fn parse_device(s: Seq<char>) -> Result<(Seq<char>, DeviceType), DeviceParseError> {
    if trim(s).len() == 0 {
        Err(DeviceParseError::EmptyName)
    } else if ends_with_ci(s, kind_label(DeviceType::Input)) {
        named(name_before(s, DeviceType::Input), DeviceType::Input)
    } else if ends_with_ci(s, kind_label(DeviceType::Output)) {
        named(name_before(s, DeviceType::Output), DeviceType::Output)
    } else {
        Err(DeviceParseError::MissingKind)
    }
}

pub open spec fn parsed_as(r: Result<AudioDevice, DeviceParseError>, s: Seq<char>) -> bool {
    match r {
        Ok(d) => parse_device(s) == Ok::<(Seq<char>, DeviceType), DeviceParseError>(
            (d.name@, d.device_type),
        ),
        Err(e) => parse_device(s) == Err::<(Seq<char>, DeviceType), DeviceParseError>(e),
    }
}

/// A name that survives the trip through its human form.
pub open spec fn is_well_formed_name(name: Seq<char>) -> bool {
    name.len() > 0 && is_trimmed(name)
}

fn label_str(t: DeviceType) -> (r: &'static str)
    ensures
        r@ == kind_label(t),
{
    match t {
        DeviceType::Input => {
            let r = "(input)";
            proof {
                reveal_strlit("(input)");
            }
            assert(r@ =~= kind_label(t));
            r
        },
        DeviceType::Output => {
            let r = "(output)";
            proof {
                reveal_strlit("(output)");
            }
            assert(r@ =~= kind_label(t));
            r
        },
    }
}

/// The name before the label `t`, trimmed.
fn name_part(s: &str, t: DeviceType) -> (r: String)
    ensures
        r@ == name_before(s@, t),
{
    let e = stripped_len_ci(s, label_str(t));
    trim_str(s.substring_char(0, e))
}

fn device_named(name: String, t: DeviceType) -> (r: Result<AudioDevice, DeviceParseError>)
    ensures
        match r {
            Ok(d) => named(name@, t) == Ok::<(Seq<char>, DeviceType), DeviceParseError>(
                (d.name@, d.device_type),
            ),
            Err(e) => named(name@, t) == Err::<(Seq<char>, DeviceType), DeviceParseError>(e),
        },
{
    if name.unicode_len() == 0 {
        Err(DeviceParseError::EmptyName)
    } else {
        Ok(AudioDevice::new(name, t))
    }
}

impl AudioDevice {
    pub fn new(name: String, device_type: DeviceType) -> (r: AudioDevice)
        ensures
            r.name == name,
            r.device_type == device_type,
    {
        AudioDevice { name, device_type }
    }

    /// Reads a device from its human form, `"<name> (input)"` or
    /// `"<name> (output)"`.
    pub fn from_name(name: &str) -> (r: Result<AudioDevice, DeviceParseError>)
        ensures
            parsed_as(r, name@),
    {
        let whole = trim_str(name);
        if whole.unicode_len() == 0 {
            return Err(DeviceParseError::EmptyName);
        }
        if ends_with_ci_str(name, label_str(DeviceType::Input)) {
            device_named(name_part(name, DeviceType::Input), DeviceType::Input)
        } else if ends_with_ci_str(name, label_str(DeviceType::Output)) {
            device_named(name_part(name, DeviceType::Output), DeviceType::Output)
        } else {
            Err(DeviceParseError::MissingKind)
        }
    }

    /// The human form, `"<name> (input)"` or `"<name> (output)"`.
    pub fn to_string(&self) -> (r: String)
        ensures
            r@ == display_of(self.name@, self.device_type),
    {
        let tail = match self.device_type {
            DeviceType::Input => {
                let t = " (input)";
                proof {
                    reveal_strlit(" (input)");
                }
                assert(t@ =~= seq![' '] + kind_label(self.device_type));
                t
            },
            DeviceType::Output => {
                let t = " (output)";
                proof {
                    reveal_strlit(" (output)");
                }
                assert(t@ =~= seq![' '] + kind_label(self.device_type));
                t
            },
        };
        let r = self.name.clone().concat(tail);
        assert(r@ =~= display_of(self.name@, self.device_type));
        r
    }
}

pub fn parse_audio_device(name: &str) -> (r: Result<AudioDevice, DeviceParseError>)
    ensures
        parsed_as(r, name@),
{
    AudioDevice::from_name(name)
}

proof fn lemma_trim_of_trimmed(s: Seq<char>)
    requires
        s.len() > 0,
        is_trimmed(s),
    ensures
        trim_end(s) == s,
        trim_start(s) == s,
        trim(s) == s,
{
}

/// Reading back the human form of a device whose name is non-empty and has
/// no blank at either end gives that device again.
pub proof fn lemma_parse_display_round_trip(name: Seq<char>, t: DeviceType)
    requires
        is_well_formed_name(name),
    ensures
        parse_device(display_of(name, t)) == Ok::<(Seq<char>, DeviceType), DeviceParseError>(
            (name, t),
        ),
{
    let s = display_of(name, t);
    let label = kind_label(t);
    let spaced = name + seq![' '];
    assert(s =~= spaced + label);
    lemma_trim_of_trimmed(name);
    assert(s[0] == name[0]);
    assert(s.last() == ')');
    assert(is_trimmed(s));
    lemma_trim_of_trimmed(s);
    assert(s.subrange(s.len() - label.len(), s.len() as int) =~= label);
    assert(s.subrange(0, s.len() - label.len()) =~= spaced);
    assert(spaced.drop_last() =~= name);
    assert(trim_end(spaced) == trim_end(name));
    assert forall|i: int| 0 <= i < label.len() implies ascii_ci_eq(
        #[trigger] s[s.len() - label.len() + i],
        label[i],
    ) by {
        assert(s[s.len() - label.len() + i] == label[i]);
    }
    assert(!ends_with_ci(spaced, label)) by {
        let k = label.len() - 1;
        assert(spaced[spaced.len() - label.len() + k] == ' ');
        assert(label[k] == ')');
        assert(!ascii_ci_eq(spaced[spaced.len() - label.len() + k], label[k]));
    }
    assert(strip_suffixes_ci(spaced, label) == spaced);
    assert(strip_suffixes_ci(s, label) == spaced);
    assert(name_before(s, t) == name);
    if t == DeviceType::Output {
        let input = kind_label(DeviceType::Input);
        assert(s[s.len() - input.len() + 0] == 'o');
        assert(!ascii_ci_eq(s[s.len() - input.len() + 0], input[0]));
    }
}


pub open spec fn input_marker() -> Seq<char> {
    seq![' '] + kind_label(DeviceType::Input)
}

pub open spec fn output_marker() -> Seq<char> {
    seq![' '] + kind_label(DeviceType::Output)
}

pub open spec fn display_word() -> Seq<char> {
    seq!['D', 'i', 's', 'p', 'l', 'a', 'y']
}

/// How a device is looked up on the audio host.
pub struct DeviceLookup {
    /// The endpoint name to look for among the host's endpoints.
    pub host_name: String,
    /// Open the stream with the endpoint's output configuration (loopback
    /// capture) rather than its input configuration.
    pub use_output_config: bool,
}

impl AudioDevice {
    /// Decides how this device is resolved to a host endpoint, always by
    /// name: the name to match is the human form with every ` (input)` and ` (output)` taken
    /// out, trimmed; an output device is opened through its output
    /// configuration unless its human form mentions `Display`.
    pub fn lookup(&self) -> (r: DeviceLookup)
        ensures
            r.host_name@ == trim(
                remove_all(
                    remove_all(display_of(self.name@, self.device_type), input_marker()),
                    output_marker(),
                ),
            ),
            r.use_output_config == (self.device_type == DeviceType::Output && !contains(
                display_of(self.name@, self.device_type),
                display_word(),
            )),
    {
        proof {
            reveal_strlit(" (input)");
            reveal_strlit(" (output)");
            reveal_strlit("Display");
            assert(" (input)"@ =~= input_marker());
            assert(" (output)"@ =~= output_marker());
            assert("Display"@ =~= display_word());
        }
        let shown = self.to_string();
        let without_input = remove_all_str(shown.as_str(), " (input)");
        let without_output = remove_all_str(without_input.as_str(), " (output)");
        let is_display = contains_str(shown.as_str(), "Display");
        let use_output_config = match self.device_type {
            DeviceType::Output => !is_display,
            DeviceType::Input => false,
        };
        DeviceLookup {
            host_name: trim_str(without_output.as_str()),
            use_output_config,
        }
    }
}

pub open spec fn speakers_word() -> Seq<char> {
    seq!['s', 'p', 'e', 'a', 'k', 'e', 'r', 's']
}

pub open spec fn airpods_word() -> Seq<char> {
    seq!['a', 'i', 'r', 'p', 'o', 'd', 's']
}

/// What `str::to_lowercase` returns for a text.
pub uninterp spec fn lower_of(s: Seq<char>) -> Seq<char>;

/// Relies on `str::to_lowercase`: the result depends on the characters alone.
#[verifier::external_body]
fn lowercase(s: &str) -> (r: String)
    ensures
        r@ == lower_of(s@),
{
    s.to_lowercase()
}

/// Whether an output endpoint whose lower-cased name is `lowered` can be
/// captured: speakers and AirPods cannot be loopback-captured.
pub fn include_lowered_output_name(lowered: &str) -> (r: bool)
    ensures
        r == (!contains(lowered@, speakers_word()) && !contains(lowered@, airpods_word())),
{
    proof {
        reveal_strlit("speakers");
        reveal_strlit("airpods");
        assert("speakers"@ =~= speakers_word());
        assert("airpods"@ =~= airpods_word());
    }
    !contains_str(lowered, "speakers") && !contains_str(lowered, "airpods")
}

/// Whether the output endpoint `name` is listed: its lower-cased name holds
/// neither `speakers` nor `airpods`.
pub fn should_include_output_device(name: &str) -> (r: bool)
    ensures
        r == (!contains(lower_of(name@), speakers_word()) && !contains(
            lower_of(name@),
            airpods_word(),
        )),
{
    let lowered = lowercase(name);
    include_lowered_output_name(lowered.as_str())
}

} // verus!
