//! Continuous audio capture cut into fixed-size chunks, voice-activity
//! filtering and speech-to-text dispatch, coordinated by a shared recording
//! state machine. The library holds the decisions of every actor of the
//! pipeline; the host runs the actors and performs their I/O.
pub mod chunk;
pub mod control;
pub mod device;
pub mod engines;
pub mod json;
pub mod state;
pub mod stt;
pub mod text;
pub mod vad;

pub use chunk::{chunk_sample_count, ChunkBuffer, ChunkQueue};
pub use device::{parse_audio_device, AudioDevice, DeviceControl, DeviceParseError, DeviceType};
pub use engines::{AudioTranscriptionEngine, CandleWhisperModel, DeepgramEngine, RestPipeEngine};
pub use state::{RecordingState, StateBus};
pub use stt::{AudioInput, SttError, SttOutcome, TranscriptionResult};
