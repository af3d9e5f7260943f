//! Volume control of the node's speaker and headphones.

use vstd::prelude::*;

use crate::digits;
use crate::digits::{dec, parse_unsigned};
use crate::text;
use crate::text::{cat2, cat3, cat4, is_empty, same, split, split_before, trim};

verus! {

/// Where sound comes out.
#[derive(Debug, Clone, Copy, PartialEq, Eq, Structural)]
pub enum AudioOutput {
    Speaker,
    Headphones,
}

/// A volume in percent, and whether the output is muted.
#[derive(Debug, Clone, Copy, PartialEq, Eq, Structural)]
pub struct AudioControlState {
    pub volume: u8,
    pub muted: bool,
}

/// The state of an output and what it is controlled through.
#[derive(Debug, Clone)]
pub struct AudioControlSnapshot {
    pub volume: u8,
    pub muted: bool,
    pub backend: String,
}

/// Why the volume could not be read or set.
#[derive(Debug, Clone)]
pub enum AudioError {
    InvalidVolume(u8),
    /// There is no such card or control.
    NotFound(String),
    StatePoisoned(String),
    TaskJoin(String),
    CommandIo { command: String, source: String },
    CommandFailed { command: String, message: String },
    UnexpectedOutput(String),
}

/// What came of running a program.
#[derive(Debug, Clone)]
pub enum CommandOutcome {
    /// The task that ran it was lost.
    Lost(String),
    /// It could not be run.
    Io(String),
    /// It ended.
    Done { success: bool, stdout: Vec<u8>, stderr: Vec<u8> },
}

impl AudioOutput {
    /// The output that a name stands for.
    pub open spec fn named(value: Seq<char>) -> Option<AudioOutput> {
        if value == "speaker"@ {
            Some(AudioOutput::Speaker)
        } else if value == "headphones"@ {
            Some(AudioOutput::Headphones)
        } else {
            None
        }
    }

    /// Reads the name of an output.
    pub fn parse(value: &str) -> (r: Option<AudioOutput>)
        ensures
            r == AudioOutput::named(value@),
    {
        if same(value, "speaker") {
            Some(AudioOutput::Speaker)
        } else if same(value, "headphones") {
            Some(AudioOutput::Headphones)
        } else {
            None
        }
    }

    /// What an output is controlled through, with a mixer or without: the headphones through
    /// the mixer where there is one.
    pub open spec fn label(self, mixer: bool) -> Seq<char> {
        match self {
            AudioOutput::Speaker => "Mock"@,
            AudioOutput::Headphones => if mixer {
                "ALSA Headphone"@
            } else {
                "Mock"@
            },
        }
    }

    /// What an output is controlled through.
    pub fn backend_label(self, mixer: bool) -> (r: String)
        ensures
            r@ == self.label(mixer),
    {
        match self {
            AudioOutput::Speaker => "Mock".to_owned(),
            AudioOutput::Headphones => if mixer {
                "ALSA Headphone".to_owned()
            } else {
                "Mock".to_owned()
            },
        }
    }

    /// The state of an output before anyone has set it.
    pub open spec fn initial(self) -> AudioControlState {
        match self {
            AudioOutput::Speaker => AudioControlState { volume: 75, muted: false },
            AudioOutput::Headphones => AudioControlState { volume: 60, muted: false },
        }
    }

    /// The state of an output before anyone has set it.
    pub fn default_state(self) -> (r: AudioControlState)
        ensures
            r == self.initial(),
    {
        match self {
            AudioOutput::Speaker => AudioControlState { volume: 75, muted: false },
            AudioOutput::Headphones => AudioControlState { volume: 60, muted: false },
        }
    }
}

impl AudioControlState {
    /// Checks that the volume is at most 100.
    pub fn validate(self) -> (r: Result<AudioControlState, AudioError>)
        ensures
            r == if self.volume > 100 {
                Err::<AudioControlState, AudioError>(AudioError::InvalidVolume(self.volume))
            } else {
                Ok::<AudioControlState, AudioError>(self)
            },
    {
        if self.volume > 100 {
            return Err(AudioError::InvalidVolume(self.volume));
        }
        Ok(self)
    }
}

impl AudioControlSnapshot {
    /// A state and what it is controlled through.
    pub fn new(state: AudioControlState, backend: String) -> (r: AudioControlSnapshot)
        ensures
            r == (AudioControlSnapshot { volume: state.volume, muted: state.muted, backend }),
    {
        AudioControlSnapshot { volume: state.volume, muted: state.muted, backend }
    }
}

/// Whether a snapshot shows a state of an output, with a mixer or without.
pub open spec fn shows(s: AudioControlSnapshot, state: AudioControlState, output: AudioOutput, mixer: bool) -> bool {
    s.volume == state.volume && s.muted == state.muted && s.backend@ == output.label(mixer)
}

impl AudioError {
    /// The error in words.
    pub open spec fn words(self) -> Seq<char> {
        match self {
            AudioError::InvalidVolume(v) => "invalid volume "@ + digits::decimal(v as nat) + "; expected 0-100"@,
            AudioError::NotFound(what) => what@,
            AudioError::StatePoisoned(what) => what@ + " state lock poisoned"@,
            AudioError::TaskJoin(e) => "blocking audio task failed: "@ + e@,
            AudioError::CommandIo { command, source } => "failed to execute `"@ + command@ + "`: "@ + source@,
            AudioError::CommandFailed { command, message } => "`"@ + command@ + "` failed: "@ + message@,
            AudioError::UnexpectedOutput(out) => "unexpected amixer output: "@ + out@,
        }
    }

    /// The error in words.
    pub fn message(&self) -> (r: String)
        ensures
            r@ == self.words(),
    {
        match self {
            AudioError::InvalidVolume(v) => cat3("invalid volume ", dec(*v as u64).as_str(), "; expected 0-100"),
            AudioError::NotFound(what) => what.clone(),
            AudioError::StatePoisoned(what) => cat2(what.as_str(), " state lock poisoned"),
            AudioError::TaskJoin(e) => cat2("blocking audio task failed: ", e.as_str()),
            AudioError::CommandIo { command, source } => cat4(
                "failed to execute `",
                command.as_str(),
                "`: ",
                source.as_str(),
            ),
            AudioError::CommandFailed { command, message } => cat4("`", command.as_str(), "` failed: ", message.as_str()),
            AudioError::UnexpectedOutput(out) => cat2("unexpected amixer output: ", out.as_str()),
        }
    }
}

// ── What the mixer prints ────────────────────────────────────────────────────

/// The volume in a piece of the mixer's output that starts after a `[`.
pub open spec fn piece_volume(piece: Seq<char>) -> Option<nat> {
    match text::before_first(piece, "%]"@) {
        Some(value) => digits::unsigned_value(text::trimmed(value), 255),
        None => None,
    }
}

/// The mute mark in a piece of the mixer's output that starts after a `[`.
pub open spec fn piece_muted(piece: Seq<char>) -> Option<bool> {
    match text::before_first(piece, "]"@) {
        Some(value) => if text::trimmed(value) == "on"@ {
            Some(false)
        } else if text::trimmed(value) == "off"@ {
            Some(true)
        } else {
            None
        },
        None => None,
    }
}

/// The volume in the last piece that has one.
pub open spec fn last_volume(pieces: Seq<Seq<char>>) -> Option<nat>
    decreases pieces.len(),
{
    if pieces.len() == 0 {
        None
    } else if piece_volume(pieces.last()) is Some {
        piece_volume(pieces.last())
    } else {
        last_volume(pieces.drop_last())
    }
}

/// The mute mark in the last piece that has one.
pub open spec fn last_muted(pieces: Seq<Seq<char>>) -> Option<bool>
    decreases pieces.len(),
{
    if pieces.len() == 0 {
        None
    } else if piece_muted(pieces.last()) is Some {
        piece_muted(pieces.last())
    } else {
        last_muted(pieces.drop_last())
    }
}

/// What the mixer's output says of an output: nothing unless it has both a volume
/// and a mute mark.
pub open spec fn mixer_state(stdout: Seq<char>) -> Option<(nat, bool)> {
    let pieces = text::split_on(stdout, '[');
    match (last_volume(pieces), last_muted(pieces)) {
        (Some(v), Some(m)) => Some((v, m)),
        _ => None,
    }
}

/// The volume in a piece of the mixer's output.
fn read_volume(piece: &str) -> (r: Option<u8>)
    ensures
        match r {
            Some(v) => piece_volume(piece@) == Some(v as nat),
            None => piece_volume(piece@) is None,
        },
{
    match split_before(piece, "%]") {
        Some(value) => match parse_unsigned(trim(value.as_str()).as_str(), 255) {
            Some(v) => Some(v as u8),
            None => None,
        },
        None => None,
    }
}

/// The mute mark in a piece of the mixer's output.
fn read_muted(piece: &str) -> (r: Option<bool>)
    ensures
        r == piece_muted(piece@),
{
    match split_before(piece, "]") {
        Some(value) => {
            let word = trim(value.as_str());
            if same(word.as_str(), "on") {
                Some(false)
            } else if same(word.as_str(), "off") {
                Some(true)
            } else {
                None
            }
        },
        None => None,
    }
}

/// Reads the state of an output from what the mixer printed.
pub fn parse_amixer_state(stdout: &str) -> (r: Result<AudioControlState, AudioError>)
    ensures
        r matches Ok(state) ==> state.volume <= 100,
        match mixer_state(stdout@) {
            None => r matches Err(AudioError::UnexpectedOutput(out)) && out@ == text::trimmed(stdout@),
            Some((v, m)) => if v > 100 {
                r == Err::<AudioControlState, AudioError>(AudioError::InvalidVolume(v as u8))
            } else {
                r == Ok::<AudioControlState, AudioError>(AudioControlState { volume: v as u8, muted: m })
            },
        },
{
    let pieces = split(stdout, '[');
    let ghost pv = text::views(pieces@);
    let mut volume: Option<u8> = None;
    let mut muted: Option<bool> = None;
    let mut i: usize = 0;
    while i < pieces.len()
        invariant
            pv == text::views(pieces@),
            i <= pieces@.len(),
            match volume {
                Some(v) => last_volume(pv.take(i as int)) == Some(v as nat),
                None => last_volume(pv.take(i as int)) is None,
            },
            muted == last_muted(pv.take(i as int)),
        decreases pieces@.len() - i,
    {
        proof {
            assert(pv.take(i + 1).drop_last() =~= pv.take(i as int));
            assert(pv.take(i + 1).last() == pieces@[i as int]@);
        }
        if let Some(v) = read_volume(pieces[i].as_str()) {
            volume = Some(v);
        }
        if let Some(m) = read_muted(pieces[i].as_str()) {
            muted = Some(m);
        }
        i += 1;
    }
    proof {
        assert(pv.take(i as int) =~= pv);
    }
    match (volume, muted) {
        (Some(volume), Some(muted)) => AudioControlState { volume, muted }.validate(),
        _ => Err(AudioError::UnexpectedOutput(trim(stdout))),
    }
}

// ── Running the mixer ────────────────────────────────────────────────────────

/// The arguments that ask the mixer for the headphones.
pub open spec fn read_words() -> Seq<Seq<char>> {
    seq!["sget"@, "Headphone"@]
}

/// The arguments that set the headphones.
pub open spec fn write_words(state: AudioControlState) -> Seq<Seq<char>> {
    seq![
        "sset"@,
        "Headphone"@,
        digits::decimal(state.volume as nat) + "%"@,
        if state.muted {
            "mute"@
        } else {
            "unmute"@
        },
    ]
}

/// The arguments that ask the mixer for the headphones.
pub fn read_arguments() -> (r: Vec<String>)
    ensures
        text::views(r@) == read_words(),
{
    let mut out: Vec<String> = Vec::new();
    out.push("sget".to_owned());
    out.push("Headphone".to_owned());
    proof {
        assert(text::views(out@) =~= read_words());
    }
    out
}

/// The arguments that set the headphones.
pub fn write_arguments(state: AudioControlState) -> (r: Vec<String>)
    ensures
        text::views(r@) == write_words(state),
{
    let mut out: Vec<String> = Vec::new();
    out.push("sset".to_owned());
    out.push("Headphone".to_owned());
    out.push(cat2(dec(state.volume as u64).as_str(), "%"));
    out.push(
        if state.muted {
            "mute".to_owned()
        } else {
            "unmute".to_owned()
        },
    );
    proof {
        assert(text::views(out@) =~= write_words(state));
    }
    out
}

/// The command line that an error names.
pub open spec fn command_line(words: Seq<Seq<char>>) -> Seq<char> {
    "amixer "@ + text::joined(words, " "@)
}

/// What the mixer printed, or why it is of no use.
pub open spec fn mixer_output(words: Seq<Seq<char>>, outcome: CommandOutcome, r: Result<Seq<char>, AudioError>) -> bool {
    match outcome {
        CommandOutcome::Lost(e) => r matches Err(AudioError::TaskJoin(m)) && m@ == e@,
        CommandOutcome::Io(e) => r matches Err(AudioError::CommandIo { command, source }) && command@ == command_line(words)
            && source@ == e@,
        CommandOutcome::Done { success, stdout, stderr } => if !success {
            r matches Err(AudioError::CommandFailed { command, message }) && command@ == command_line(words) && message@
                == text::trimmed(text::utf8_lossy(stderr@))
        } else if text::trimmed(text::utf8_lossy(stdout@)).len() == 0 {
            r matches Err(AudioError::UnexpectedOutput(out)) && out@ == "amixer returned empty stdout"@
        } else {
            r == Ok::<Seq<char>, AudioError>(text::utf8_lossy(stdout@))
        },
    }
}

/// A result with the characters of its text.
pub open spec fn view_ok(r: Result<String, AudioError>) -> Result<Seq<char>, AudioError> {
    match r {
        Ok(s) => Ok(s@),
        Err(e) => Err(e),
    }
}

/// Judges a run of the mixer with the given arguments.
pub fn run_amixer(words: &[String], outcome: CommandOutcome) -> (r: Result<String, AudioError>)
    ensures
        mixer_output(text::views(words@), outcome, view_ok(r)),
{
    let command = cat2("amixer ", text::join(words, " ").as_str());
    match outcome {
        CommandOutcome::Lost(e) => Err(AudioError::TaskJoin(e)),
        CommandOutcome::Io(source) => Err(AudioError::CommandIo { command, source }),
        CommandOutcome::Done { success, stdout, stderr } => {
            if !success {
                let message = trim(text::from_utf8_lossy(stderr.as_slice()).as_str());
                return Err(AudioError::CommandFailed { command, message });
            }
            let printed = text::from_utf8_lossy(stdout.as_slice());
            if is_empty(trim(printed.as_str()).as_str()) {
                return Err(AudioError::UnexpectedOutput("amixer returned empty stdout".to_owned()));
            }
            Ok(printed)
        },
    }
}

/// What the mixer says of the headphones after it was asked.
pub open spec fn headphones_read(outcome: CommandOutcome, r: Result<AudioControlState, AudioError>) -> bool {
    exists|printed: Result<Seq<char>, AudioError>|
        {
            &&& #[trigger] mixer_output(read_words(), outcome, printed)
            &&& match printed {
                Err(e) => r == Err::<AudioControlState, AudioError>(e),
                Ok(s) => match mixer_state(s) {
                    None => r matches Err(AudioError::UnexpectedOutput(out)) && out@ == text::trimmed(s),
                    Some((v, m)) => if v > 100 {
                        r == Err::<AudioControlState, AudioError>(AudioError::InvalidVolume(v as u8))
                    } else {
                        r == Ok::<AudioControlState, AudioError>(AudioControlState { volume: v as u8, muted: m })
                    },
                },
            }
        }
}

/// Reads the headphones from a run of the mixer that asked for them.
pub fn read_headphones_linux(sget: CommandOutcome) -> (r: Result<AudioControlState, AudioError>)
    ensures
        headphones_read(sget, r),
{
    let words = read_arguments();
    let printed = run_amixer(&words, sget);
    proof {
        assert(mixer_output(read_words(), sget, view_ok(printed)));
    }
    match printed {
        Ok(stdout) => parse_amixer_state(stdout.as_str()),
        Err(e) => Err(e),
    }
}

/// What the mixer says of the headphones after it was told to set them and asked.
pub open spec fn headphones_written(
    state: AudioControlState,
    sset: CommandOutcome,
    sget: CommandOutcome,
    r: Result<AudioControlState, AudioError>,
) -> bool {
    exists|set: Result<Seq<char>, AudioError>|
        {
            &&& #[trigger] mixer_output(write_words(state), sset, set)
            &&& match set {
                Err(e) => r == Err::<AudioControlState, AudioError>(e),
                Ok(_) => headphones_read(sget, r),
            }
        }
}

/// Sets the headphones: judges the run of the mixer that set them, and reads them
/// from the run that asked for them afterwards.
pub fn write_headphones_linux(state: AudioControlState, sset: CommandOutcome, sget: CommandOutcome) -> (r: Result<
    AudioControlState,
    AudioError,
>)
    ensures
        headphones_written(state, sset, sget, r),
{
    let words = write_arguments(state);
    let set = run_amixer(&words, sset);
    proof {
        assert(mixer_output(write_words(state), sset, view_ok(set)));
    }
    match set {
        Ok(_) => read_headphones_linux(sget),
        Err(e) => Err(e),
    }
}

// ── The service ──────────────────────────────────────────────────────────────

/// The volume of both outputs. The speaker's is kept here; the headphones' is kept
/// by the mixer, and here where there is none.
#[derive(Debug, Clone, Copy)]
pub struct AudioService {
    pub speaker: AudioControlState,
    pub headphones_mock: AudioControlState,
}

/// The state of an output that is kept here.
pub open spec fn kept(s: AudioService, output: AudioOutput) -> AudioControlState {
    match output {
        AudioOutput::Speaker => s.speaker,
        AudioOutput::Headphones => s.headphones_mock,
    }
}

/// Whether an output is set and read here alone: the speaker always, the headphones
/// where no mixer controls them.
pub open spec fn is_kept(output: AudioOutput, mixer: bool) -> bool {
    output == AudioOutput::Speaker || !mixer
}

/// The service after an output was set: a valid state of a kept output replaces the old one.
pub open spec fn after_write(before: AudioService, output: AudioOutput, state: AudioControlState, mixer: bool) -> AudioService {
    if state.volume > 100 || !is_kept(output, mixer) {
        before
    } else {
        match output {
            AudioOutput::Speaker => AudioService { speaker: state, ..before },
            AudioOutput::Headphones => AudioService { headphones_mock: state, ..before },
        }
    }
}

/// What a kept output is set to is what is read of it until it is set again; a state that is
/// refused, or one of the other output, leaves it as it was. Nothing but the mock controls it.
pub proof fn law_kept_outputs_read_back(
    before: AudioService,
    written: AudioOutput,
    state: AudioControlState,
    mixer: bool,
    output: AudioOutput,
    read: AudioControlSnapshot,
)
    requires
        is_kept(output, mixer),
        shows(read, kept(after_write(before, written, state, mixer), output), output, mixer),
    ensures
        read.backend@ == "Mock"@,
        if written == output && state.volume <= 100 {
            read.volume == state.volume && read.muted == state.muted
        } else {
            shows(read, kept(before, output), output, mixer)
        },
{
}

impl Default for AudioService {
    fn default() -> (s: AudioService)
        ensures
            s.speaker == AudioOutput::Speaker.initial(),
            s.headphones_mock == AudioOutput::Headphones.initial(),
    {
        AudioService {
            speaker: AudioOutput::Speaker.default_state(),
            headphones_mock: AudioOutput::Headphones.default_state(),
        }
    }
}

impl AudioService {
    /// Both outputs in the state before anyone has set them.
    pub fn new() -> (s: AudioService)
        ensures
            s.speaker == AudioOutput::Speaker.initial(),
            s.headphones_mock == AudioOutput::Headphones.initial(),
    {
        AudioService::default()
    }

    /// The state of an output that is kept here.
    pub fn read_mock(&self, output: AudioOutput) -> (r: AudioControlSnapshot)
        ensures
            shows(r, kept(*self, output), output, false),
    {
        let state = match output {
            AudioOutput::Speaker => self.speaker,
            AudioOutput::Headphones => self.headphones_mock,
        };
        AudioControlSnapshot::new(state, output.backend_label(false))
    }

    /// Keeps a new state of an output.
    pub fn write_mock(&mut self, next: AudioControlState, output: AudioOutput) -> (r: AudioControlSnapshot)
        ensures
            *final(self) == (match output {
                AudioOutput::Speaker => AudioService { speaker: next, ..*old(self) },
                AudioOutput::Headphones => AudioService { headphones_mock: next, ..*old(self) },
            }),
            shows(r, next, output, false),
    {
        match output {
            AudioOutput::Speaker => {
                self.speaker = next;
            },
            AudioOutput::Headphones => {
                self.headphones_mock = next;
            },
        }
        AudioControlSnapshot::new(next, output.backend_label(false))
    }

    /// Reads an output; for the headphones from a run of the mixer that asked for them,
    /// where there is a mixer.
    pub fn read(&self, output: AudioOutput, sget: Option<CommandOutcome>) -> (r: Result<AudioControlSnapshot, AudioError>)
        ensures
            is_kept(output, sget is Some) ==> r is Ok && shows(r->Ok_0, kept(*self, output), output, false)
                && r->Ok_0.backend@ == "Mock"@,
            !is_kept(output, sget is Some) ==> exists|state: Result<AudioControlState, AudioError>|
                {
                    &&& #[trigger] headphones_read(sget->Some_0, state)
                    &&& match state {
                        Ok(s) => r is Ok && shows(r->Ok_0, s, output, true),
                        Err(e) => r == Err::<AudioControlSnapshot, AudioError>(e),
                    }
                },
    {
        match output {
            AudioOutput::Speaker => Ok(self.read_mock(output)),
            AudioOutput::Headphones => match sget {
                None => Ok(self.read_mock(output)),
                Some(sget) => {
                    let state = read_headphones_linux(sget);
                    proof {
                        assert(headphones_read(sget, state));
                    }
                    match state {
                        Ok(state) => Ok(AudioControlSnapshot::new(state, output.backend_label(true))),
                        Err(e) => Err(e),
                    }
                },
            },
        }
    }

    /// Sets an output to a valid state; for the headphones, where there is a mixer, judges
    /// its run that set them and reads them from its run that asked for them.
    pub fn write(&mut self, output: AudioOutput, state: AudioControlState, runs: Option<(CommandOutcome, CommandOutcome)>) -> (r:
        Result<AudioControlSnapshot, AudioError>)
        ensures
            *final(self) == after_write(*old(self), output, state, runs is Some),
            if state.volume > 100 {
                r == Err::<AudioControlSnapshot, AudioError>(AudioError::InvalidVolume(state.volume))
            } else if is_kept(output, runs is Some) {
                r is Ok && shows(r->Ok_0, state, output, false) && r->Ok_0.backend@ == "Mock"@
            } else {
                exists|after: Result<AudioControlState, AudioError>|
                    {
                        &&& #[trigger] headphones_written(state, runs->Some_0.0, runs->Some_0.1, after)
                        &&& match after {
                            Err(e) => r == Err::<AudioControlSnapshot, AudioError>(e),
                            Ok(s) => r is Ok && shows(r->Ok_0, s, output, true),
                        }
                    }
            },
    {
        let state = match state.validate() {
            Ok(state) => state,
            Err(e) => {
                return Err(e);
            },
        };
        match output {
            AudioOutput::Speaker => Ok(self.write_mock(state, output)),
            AudioOutput::Headphones => match runs {
                None => Ok(self.write_mock(state, output)),
                Some((sset, sget)) => {
                    let after = write_headphones_linux(state, sset, sget);
                    proof {
                        assert(headphones_written(state, sset, sget, after));
                    }
                    match after {
                        Err(e) => Err(e),
                        Ok(s) => Ok(AudioControlSnapshot::new(s, output.backend_label(true))),
                    }
                },
            },
        }
    }
}

// ── What reading and setting come to ─────────────────────────────────────────

/// The words that set the headphones name them, give the volume in percent, and mute them exactly
/// where they are to be muted.
pub proof fn law_words_say_what_is_set(state: AudioControlState, words: Vec<String>)
    requires
        call_ensures(write_arguments, (state,), words),
    ensures
        words@.len() == 4,
        words@[0]@ == "sset"@ && words@[1]@ == "Headphone"@,
        words@[2]@ == digits::decimal(state.volume as nat).push('%'),
        words@[3]@ == "mute"@ <==> state.muted,
        words@[3]@ == "unmute"@ <==> !state.muted,
{
    reveal_strlit("mute");
    reveal_strlit("unmute");
    reveal_strlit("%");
    assert("mute"@.len() != "unmute"@.len());
    let wv = text::views(words@);
    assert(wv.len() == words@.len());
    assert(wv[0] == words@[0]@ && wv[1] == words@[1]@ && wv[2] == words@[2]@ && wv[3] == words@[3]@);
    assert(words@[2]@ =~= digits::decimal(state.volume as nat).push('%'));
}

/// The words that ask for the headphones ask for what the words that set them name.
pub proof fn law_the_same_control_is_read_and_set(state: AudioControlState, asked: Vec<String>, set: Vec<String>)
    requires
        call_ensures(read_arguments, (), asked),
        call_ensures(write_arguments, (state,), set),
    ensures
        asked@.len() == 2,
        asked@[0]@ == "sget"@,
        asked@[1]@ == set@[1]@,
{
    let av = text::views(asked@);
    let sv = text::views(set@);
    assert(av.len() == asked@.len() && sv.len() == set@.len());
    assert(av[0] == asked@[0]@ && av[1] == asked@[1]@ && sv[1] == set@[1]@);
}

/// What a mixer prints of a control: its volume in percent and its switch, each in brackets.
pub open spec fn printed_state(before: Seq<char>, volume: nat, switch: Seq<char>, after: Seq<char>) -> Seq<char> {
    before + seq!['['] + digits::decimal(volume) + seq!['%', ']', ' ', '['] + switch + seq![']'] + after
}

/// A control that is printed with its volume in percent and its switch `on` or `off`, each in
/// brackets, is read with that volume, and muted exactly where the switch is off.
pub proof fn law_printed_state_is_read(stdout: &str, r: Result<AudioControlState, AudioError>, before: Seq<char>, state: AudioControlState, after: Seq<char>)
    requires
        state.volume <= 100,
        !before.contains('['),
        !after.contains('[') && !after.contains('%'),
        stdout@ == printed_state(
            before,
            state.volume as nat,
            if state.muted {
                "off"@
            } else {
                "on"@
            },
            after,
        ),
        call_ensures(parse_amixer_state, (stdout,), r),
    ensures
        r == Ok::<AudioControlState, AudioError>(state),
{
    let switch = if state.muted {
        "off"@
    } else {
        "on"@
    };
    lemma_printed_state(before, state.volume as nat, switch, after);
    reveal_strlit("on");
    reveal_strlit("off");
}

/// The piece that starts with a switch holds that switch and no volume.
proof fn lemma_switch_piece(switch: Seq<char>, after: Seq<char>)
    requires
        !after.contains('[') && !after.contains('%'),
        switch == "on"@ || switch == "off"@,
    ensures
        !(switch + seq![']'] + after).contains('['),
        piece_volume(switch + seq![']'] + after) is None,
        piece_muted(switch + seq![']'] + after) == Some(switch == "off"@),
{
    reveal_strlit("on");
    reveal_strlit("off");
    reveal_strlit("%]");
    reveal_strlit("]");
    let third = switch + seq![']'] + after;
    let n = switch.len() as int;
    assert forall|k: int| 0 <= k < third.len() implies third[k] != '[' && third[k] != '%' by {
        if k > n {
            assert(third[k] == after[k - n - 1]);
            assert(after.contains(third[k]));
        } else if k == n {
            assert(third[k] == ']');
        } else {
            assert(third[k] == switch[k]);
        }
    }
    text::lemma_first_place(third, "]"@, 0);
    assert(third.subrange(n, n + 1) =~= "]"@);
    assert(text::occurs_at(third, "]"@, n));
    let at = text::first_place(third, "]"@, 0)->0;
    assert(at == n) by {
        assert(text::occurs_at(third, "]"@, at));
        assert(third.subrange(at, at + 1)[0] == ']');
        if at < n {
            assert(third[at] == switch[at]);
        }
    }
    assert(third.take(at) =~= switch);
    text::lemma_trim_plain(switch);
    assert("on"@.len() != "off"@.len());
    text::lemma_first_place(third, "%]"@, 0);
    if let Some(k) = text::first_place(third, "%]"@, 0) {
        assert(text::occurs_at(third, "%]"@, k));
        assert(third.subrange(k, k + 2)[0] == '%');
        assert(third[k] == '%');
    }
}

/// The piece that starts with a volume in percent holds that volume.
proof fn lemma_volume_piece(volume: nat)
    requires
        volume <= 255,
    ensures
        !(digits::decimal(volume) + seq!['%', ']', ' ']).contains('['),
        piece_volume(digits::decimal(volume) + seq!['%', ']', ' ']) == Some(volume),
{
    reveal_strlit("%]");
    let d = digits::decimal(volume);
    let n = d.len() as int;
    digits::lemma_decimal_reads_back(volume);
    let second = d + seq!['%', ']', ' '];
    assert forall|k: int| 0 <= k < second.len() implies second[k] != '[' by {
        if k < n {
            assert(digits::is_digit(d[k]));
        }
    }
    text::lemma_first_place(second, "%]"@, 0);
    assert(second.subrange(n, n + 2) =~= "%]"@);
    assert(text::occurs_at(second, "%]"@, n));
    let at = text::first_place(second, "%]"@, 0)->0;
    assert(at == n) by {
        assert(text::occurs_at(second, "%]"@, at));
        assert(second.subrange(at, at + 2)[0] == '%');
        if at < n {
            assert(digits::is_digit(d[at]));
        }
    }
    assert(second.take(at) =~= d);
    assert(digits::is_digit(d[0]) && digits::is_digit(d[n - 1]));
    text::lemma_trim_plain(d);
}

/// A printed control has the volume and the switch that were printed.
proof fn lemma_printed_state(before: Seq<char>, volume: nat, switch: Seq<char>, after: Seq<char>)
    requires
        volume <= 255,
        !before.contains('['),
        !after.contains('[') && !after.contains('%'),
        switch == "on"@ || switch == "off"@,
    ensures
        mixer_state(printed_state(before, volume, switch, after)) == Some((volume, switch == "off"@)),
{
    lemma_switch_piece(switch, after);
    lemma_volume_piece(volume);
    let out = printed_state(before, volume, switch, after);
    let second = digits::decimal(volume) + seq!['%', ']', ' '];
    let third = switch + seq![']'] + after;
    let pieces = seq![before, second, third];
    let sep = seq!['['];
    assert(text::joined(pieces, sep) == before + sep + second + sep + third) by {
        assert(pieces.drop_last() =~= seq![before, second]);
        assert(seq![before, second].drop_last() =~= seq![before]);
        assert(text::joined(seq![before], sep) == before);
        assert(text::joined(seq![before, second], sep) == before + sep + second);
    }
    assert(before + sep + second + sep + third =~= out);
    assert forall|i: int| 0 <= i < pieces.len() implies !(#[trigger] pieces[i]).contains('[') by {}
    text::lemma_split_joined(pieces, '[');
    assert(text::split_on(out, '[') == pieces);
    reveal_with_fuel(last_volume, 3);
    reveal_with_fuel(last_muted, 3);
    assert(pieces.last() == third);
    assert(pieces.drop_last().last() == second);
}

/// Setting the headphones and reading them agree: a mixer that prints the very volume word that it
/// was given, and its switch as off where it was told to mute and as on where it was told to unmute,
/// is read as what was set.
pub proof fn law_what_is_set_is_read(state: AudioControlState, words: Vec<String>, stdout: &str, r: Result<AudioControlState, AudioError>)
    requires
        state.volume <= 100,
        call_ensures(write_arguments, (state,), words),
        stdout@ == seq!['['] + words@[2]@ + seq![']', ' ', '['] + (if words@[3]@ == "mute"@ {
            "off"@
        } else {
            "on"@
        }) + seq![']'],
        call_ensures(parse_amixer_state, (stdout,), r),
    ensures
        r == Ok::<AudioControlState, AudioError>(state),
{
    law_words_say_what_is_set(state, words);
    let none = Seq::<char>::empty();
    let switch = if state.muted {
        "off"@
    } else {
        "on"@
    };
    assert(stdout@ =~= printed_state(none, state.volume as nat, switch, none));
    law_printed_state_is_read(stdout, r, none, state, none);
}

/// Of several volumes that a mixer prints, the last counts, and so does the last switch; a print
/// without either is refused.
pub proof fn law_the_last_channel_counts(pieces: Seq<Seq<char>>, i: int)
    requires
        0 <= i < pieces.len(),
    ensures
        piece_volume(pieces[i]) is Some && (forall|j: int| i < j < pieces.len() ==> piece_volume(#[trigger] pieces[j]) is None)
            ==> last_volume(pieces) == piece_volume(pieces[i]),
        piece_muted(pieces[i]) is Some && (forall|j: int| i < j < pieces.len() ==> piece_muted(#[trigger] pieces[j]) is None)
            ==> last_muted(pieces) == piece_muted(pieces[i]),
        (forall|j: int| 0 <= j < pieces.len() ==> piece_volume(#[trigger] pieces[j]) is None) ==> last_volume(pieces) is None,
        (forall|j: int| 0 <= j < pieces.len() ==> piece_muted(#[trigger] pieces[j]) is None) ==> last_muted(pieces) is None,
    decreases pieces.len(),
{
    let front = pieces.drop_last();
    assert forall|j: int| 0 <= j < front.len() implies front[j] == #[trigger] pieces[j] by {}
    if front.len() > 0 {
        let k = if i < front.len() {
            i
        } else {
            0
        };
        law_the_last_channel_counts(front, k);
    }
    assert(pieces[pieces.len() - 1] == pieces.last());
}

/// A volume is accepted exactly up to 100, and then left as it is.
pub proof fn law_volumes_go_up_to_100(state: AudioControlState, r: Result<AudioControlState, AudioError>)
    requires
        call_ensures(AudioControlState::validate, (state,), r),
    ensures
        r is Ok <==> state.volume <= 100,
        r matches Ok(s) ==> s == state,
        r matches Err(e) ==> e == AudioError::InvalidVolume(state.volume),
{
}

/// Each output has its own name.
pub proof fn law_outputs_are_named(value: &str, r: Option<AudioOutput>)
    requires
        call_ensures(AudioOutput::parse, (value,), r),
    ensures
        r == Some(AudioOutput::Speaker) <==> value@ == "speaker"@,
        r == Some(AudioOutput::Headphones) <==> value@ == "headphones"@,
{
    reveal_strlit("speaker");
    reveal_strlit("headphones");
    assert("speaker"@.len() != "headphones"@.len());
}

/// An output that is kept here and was set to a valid state reads as set; the other output reads as
/// before. A state that is refused changes neither.
pub proof fn law_service_keeps_what_was_set(
    service: &mut AudioService,
    output: AudioOutput,
    state: AudioControlState,
    r: Result<AudioControlSnapshot, AudioError>,
    later: &AudioService,
    asked: AudioOutput,
    before: AudioControlSnapshot,
    after: AudioControlSnapshot,
)
    requires
        call_ensures(AudioService::write, (service, output, state, None::<(CommandOutcome, CommandOutcome)>), r),
        *later == *final(service),
        call_ensures(AudioService::read, (&*old(service), asked, None::<CommandOutcome>), Ok::<AudioControlSnapshot, AudioError>(before)),
        call_ensures(AudioService::read, (later, asked, None::<CommandOutcome>), Ok::<AudioControlSnapshot, AudioError>(after)),
    ensures
        r is Ok <==> state.volume <= 100,
        r is Ok && asked == output ==> after.volume == state.volume && after.muted == state.muted,
        r is Ok ==> r->Ok_0.volume == state.volume && r->Ok_0.muted == state.muted,
        r is Err || asked != output ==> after.volume == before.volume && after.muted == before.muted,
{
}

/// Where a mixer controls the headphones, setting them changes nothing that is kept here, and what
/// is reported is what the mixer says afterwards, not what was asked for.
pub proof fn law_mixer_has_the_last_word(
    service: &mut AudioService,
    state: AudioControlState,
    sset: CommandOutcome,
    sget: CommandOutcome,
    r: Result<AudioControlSnapshot, AudioError>,
    printed: Vec<u8>,
    now: AudioControlState,
)
    requires
        call_ensures(AudioService::write, (service, AudioOutput::Headphones, state, Some((sset, sget))), r),
        state.volume <= 100,
        sset matches CommandOutcome::Done { success, stdout, .. } && success && text::trimmed(text::utf8_lossy(stdout@)).len() > 0,
        sget matches CommandOutcome::Done { success, stdout, .. } && success && stdout == printed,
        text::trimmed(text::utf8_lossy(printed@)).len() > 0,
        now.volume <= 100,
        mixer_state(text::utf8_lossy(printed@)) == Some((now.volume as nat, now.muted)),
    ensures
        *final(service) == *old(service),
        r is Ok,
        r->Ok_0.volume == now.volume && r->Ok_0.muted == now.muted,
        r->Ok_0.backend@ == "ALSA Headphone"@,
{
    let after = choose|after: Result<AudioControlState, AudioError>|
        {
            &&& #[trigger] headphones_written(state, sset, sget, after)
            &&& match after {
                Err(e) => r == Err::<AudioControlSnapshot, AudioError>(e),
                Ok(s) => r is Ok && shows(r->Ok_0, s, AudioOutput::Headphones, true),
            }
        };
    assert(headphones_written(state, sset, sget, after));
}

/// Both outputs start unmuted, the speaker at 75 percent and the headphones at 60.
pub proof fn law_outputs_start_audible(s: AudioService)
    requires
        call_ensures(AudioService::new, (), s),
    ensures
        s.speaker == (AudioControlState { volume: 75, muted: false }),
        s.headphones_mock == (AudioControlState { volume: 60, muted: false }),
{
}

/// A run of the mixer counts for what it printed where it succeeded and printed anything but white space;
/// else it is an error that says what happened.
pub proof fn law_runs_of_the_mixer(words: &[String], outcome: CommandOutcome, r: Result<String, AudioError>)
    requires
        call_ensures(run_amixer, (words, outcome), r),
    ensures
        r is Ok <==> outcome is Done && outcome->success && text::trimmed(text::utf8_lossy(outcome->stdout@)).len() > 0,
        r is Ok ==> r->Ok_0@ == text::utf8_lossy(outcome->stdout@),
        outcome matches CommandOutcome::Lost(e) ==> r is Err && r->Err_0 is TaskJoin && r->Err_0->TaskJoin_0@ == e@,
        outcome matches CommandOutcome::Io(e) ==> r is Err && r->Err_0 is CommandIo && r->Err_0->CommandIo_command@
            == "amixer "@ + text::joined(text::views(words@), " "@) && r->Err_0->source@ == e@,
        outcome is Done && !outcome->success ==> r is Err && r->Err_0 is CommandFailed && r->Err_0->CommandFailed_command@
            == "amixer "@ + text::joined(text::views(words@), " "@) && r->Err_0->message@ == text::trimmed(
            text::utf8_lossy(outcome->stderr@),
        ),
{
}

/// What an output is controlled through: only the headphones are by the mixer, and only where there is one.
pub proof fn law_backends_are_named(output: AudioOutput, mixer: bool, r: String, start: AudioControlState)
    requires
        call_ensures(AudioOutput::backend_label, (output, mixer), r),
        call_ensures(AudioOutput::default_state, (output,), start),
    ensures
        output == AudioOutput::Headphones && mixer ==> r@ == "ALSA Headphone"@,
        output == AudioOutput::Speaker || !mixer ==> r@ == "Mock"@,
        output == AudioOutput::Speaker ==> start.volume == 75 && !start.muted,
        output == AudioOutput::Headphones ==> start.volume == 60 && !start.muted,
{
}

/// Without a mixer every output is one that is kept here.
pub proof fn law_kept_outputs_are_no_mixer(
    service: &mut AudioService,
    output: AudioOutput,
    state: AudioControlState,
    r: Result<AudioControlSnapshot, AudioError>,
    read: Result<AudioControlSnapshot, AudioError>,
)
    requires
        call_ensures(AudioService::write, (service, output, state, None::<(CommandOutcome, CommandOutcome)>), r),
        call_ensures(AudioService::read, (&*old(service), output, None::<CommandOutcome>), read),
    ensures
        r is Ok ==> r->Ok_0.backend@ == "Mock"@,
        read is Ok && read->Ok_0.backend@ == "Mock"@,
{
}

} // verus!
