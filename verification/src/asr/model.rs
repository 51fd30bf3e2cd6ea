//! Where the speech-recognition models live.
use crate::text::str_eq;
use vstd::prelude::*;

verus! {

pub const MODEL_FILENAME: &'static str = "ggml-small.bin";

pub const WAKE_MODEL_FILENAME: &'static str = "ggml-base.bin";

pub const MODEL_URL: &'static str =
    "https://hf-mirror.com/ggerganov/whisper.cpp/resolve/main/ggml-small.bin";

pub const WAKE_MODEL_URL: &'static str =
    "https://hf-mirror.com/ggerganov/whisper.cpp/resolve/main/ggml-base.bin";

pub const MEDIUM_MODEL_FILENAME: &'static str = "ggml-medium.bin";

pub const MEDIUM_MODEL_URL: &'static str =
    "https://hf-mirror.com/ggerganov/whisper.cpp/resolve/main/ggml-medium.bin";

/// The model file for transcription: the medium model when configured so,
/// the small one otherwise.
pub fn asr_model_filename(asr_model: &str) -> (res: &'static str)
    ensures
        res == (if asr_model@ == "medium"@ {
            MEDIUM_MODEL_FILENAME
        } else {
            MODEL_FILENAME
        }),
{
    if str_eq(asr_model, "medium") {
        MEDIUM_MODEL_FILENAME
    } else {
        MODEL_FILENAME
    }
}

/// `std::path::Path::join`, as text: the path `base` with `part` below it.
pub uninterp spec fn path_joined(base: Seq<char>, part: Seq<char>) -> Seq<char>;

/// `Path::new(base).join(part)`, read back as a string (lossless, both
/// parts being UTF-8).
#[verifier::external_body]
pub(crate) fn join_path(base: &str, part: &str) -> (res: String)
    ensures
        res@ == path_joined(base@, part@),
{
    std::path::Path::new(base).join(part).to_string_lossy().into_owned()
}

/// The small model under `data_dir/models`.
pub fn model_path(data_dir: &str) -> (res: String)
    ensures
        res@ == path_joined(path_joined(data_dir@, "models"@), MODEL_FILENAME@),
{
    let models = join_path(data_dir, "models");
    join_path(models.as_str(), MODEL_FILENAME)
}

/// The wake-word model under `data_dir/models`.
pub fn wake_model_path(data_dir: &str) -> (res: String)
    ensures
        res@ == path_joined(path_joined(data_dir@, "models"@), WAKE_MODEL_FILENAME@),
{
    let models = join_path(data_dir, "models");
    join_path(models.as_str(), WAKE_MODEL_FILENAME)
}

} // verus!
