//! Paths: joining, absolute paths, the text of a path, and where the
//! application keeps its models and recordings in its data directory.

use vstd::prelude::*;
use std::path::PathBuf;

verus! {

#[verifier::external_type_specification]
#[verifier::external_body]
pub struct ExPathBuf(std::path::PathBuf);

/// Name for what `Path::join` returns: `base` extended with `name` by the
/// path rules of the platform the crate is built for (`PathBuf::push`). The
/// result depends on the two arguments alone; it reads no environment.
pub uninterp spec fn joined_path(base: PathBuf, name: Seq<char>) -> PathBuf;

/// Wrapper for `Path::join`; its result is named `joined_path`. Joining a
/// non-empty path gives a non-empty path (`PathBuf::push` either replaces
/// the base by the path or appends the path to it).
#[verifier::external_body]
pub(crate) fn join_path(base: &PathBuf, name: &str) -> (r: PathBuf)
    ensures
        r == joined_path(*base, name@),
        name@.len() > 0 ==> path_text(r).len() > 0,
{
    base.join(name)
}

/// Name for what `Path::is_absolute` says of a path: whether it is
/// absolute by the path rules of the platform the crate is built for. It
/// depends on the path alone.
pub uninterp spec fn path_is_absolute(path: Seq<char>) -> bool;

/// Wrapper for `Path::is_absolute`; its result is named `path_is_absolute`.
#[verifier::external_body]
pub(crate) fn is_absolute(path: &str) -> (r: bool)
    ensures
        r == path_is_absolute(path@),
{
    std::path::Path::new(path).is_absolute()
}

/// Name for what `Path::to_string_lossy` gives for a path: its text, with
/// parts that are not valid Unicode replaced by U+FFFD. It depends on the
/// path alone.
pub uninterp spec fn path_text(path: PathBuf) -> Seq<char>;

/// Wrapper for `Path::to_string_lossy`; its result is named `path_text`.
#[verifier::external_body]
pub(crate) fn path_to_string(path: &PathBuf) -> (r: String)
    ensures
        r@ == path_text(*path),
{
    path.to_string_lossy().into_owned()
}

/// The directory the model files are kept in: `models` in the data
/// directory.
pub open spec fn models_dir_spec(app_data_dir: PathBuf) -> PathBuf {
    joined_path(app_data_dir, "models"@)
}

/// The directory the model files are kept in.
pub fn models_dir(app_data_dir: &PathBuf) -> (r: PathBuf)
    ensures
        r == models_dir_spec(*app_data_dir),
{
    join_path(app_data_dir, "models")
}

/// The file the model `model_name` is kept in: `model_name` in the models
/// directory.
pub fn model_file(app_data_dir: &PathBuf, model_name: &str) -> (r: PathBuf)
    ensures
        r == joined_path(models_dir_spec(*app_data_dir), model_name@),
        model_name@.len() > 0 ==> path_text(r).len() > 0,
{
    let dir = models_dir(app_data_dir);
    join_path(&dir, model_name)
}

/// The directory recordings are kept in: `recordings` in the data
/// directory.
pub fn recordings_dir(app_data_dir: &PathBuf) -> (r: PathBuf)
    ensures
        r == joined_path(*app_data_dir, "recordings"@),
{
    join_path(app_data_dir, "recordings")
}

} // verus!
