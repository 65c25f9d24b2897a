//! The layout of the data directory.
//!
//! Paths are kept as text. The path of a child of a directory is formed by
//! the platform's path join, which has a name here: the layout is stated over
//! that name, directory by directory and file by file.

use vstd::prelude::*;
use crate::strings::texts;

verus! {

/// The name of the database file at the root of the data directory.
pub const DATABASE_FILE: &'static str = "glee.db";

/// The name of the directory for avatars.
pub const AVATARS_DIR: &'static str = "avatars";

/// The name of the directory for models.
pub const MODELS_DIR: &'static str = "models";

/// The name of the directory for exports.
pub const EXPORTS_DIR: &'static str = "exports";

/// The name of the directory for logs.
pub const LOGS_DIR: &'static str = "logs";

/// The name of the directory for the binary of the inference server.
pub const BIN_DIR: &'static str = "bin";

/// The name of the model that is loaded when none is configured.
pub const DEFAULT_MODEL_FILE: &'static str = "model.gguf";

/// What `std::path::Path::join` makes of a directory and a name, as text.
pub uninterp spec fn joined_path(dir: Seq<char>, name: Seq<char>) -> Seq<char>;

/// `std::path::Path::join`, with the joined path made text again by
/// `Path::to_string_lossy`: the path of `name` under `dir`. The join is a
/// function of the two texts alone; how it puts them together is the
/// platform's matter, so nothing more is claimed of the text.
#[verifier::external_body]
pub(crate) fn join_path(dir: &str, name: &str) -> (path: String)
    ensures
        path@ == joined_path(dir@, name@),
{
    std::path::Path::new(dir).join(name).to_string_lossy().into_owned()
}

/// The path under `dir` that the names lead to, one after the other.
pub open spec fn joined_all(dir: Seq<char>, names: Seq<Seq<char>>) -> Seq<char>
    decreases names.len(),
{
    if names.len() == 0 {
        dir
    } else {
        joined_path(joined_all(dir, names.drop_last()), names.last())
    }
}

/// The path under `dir` that the names lead to, one after the other.
pub fn join_all(dir: &str, names: &Vec<String>) -> (path: String)
    ensures
        path@ == joined_all(dir@, texts(names@)),
{
    let mut path = dir.to_owned();
    let mut i: usize = 0;
    assert(texts(names@).take(0) =~= Seq::<Seq<char>>::empty());
    while i < names.len()
        invariant
            i <= names.len(),
            path@ == joined_all(dir@, texts(names@).take(i as int)),
        decreases names.len() - i,
    {
        proof {
            let upto = texts(names@).take(i + 1);
            assert(upto.drop_last() =~= texts(names@).take(i as int));
            assert(upto.last() == names@[i as int]@);
        }
        path = join_path(path.as_str(), names[i].as_str());
        i += 1;
    }
    proof {
        assert(texts(names@).take(names@.len() as int) =~= texts(names@));
    }
    path
}

/// The places of the data directory.
#[derive(Clone, Debug, PartialEq, Eq)]
pub struct AppPaths {
    pub data_dir: String,
    pub database_path: String,
    pub avatars_dir: String,
    pub models_dir: String,
    pub exports_dir: String,
    pub logs_dir: String,
}

impl AppPaths {
    /// The paths are those of the layout under their data directory: the
    /// database file `glee.db` at its root, and beside it the directories
    /// `avatars`, `models`, `exports` and `logs`.
    pub open spec fn well_formed(&self) -> bool {
        &&& self.database_path@ == joined_path(self.data_dir@, DATABASE_FILE@)
        &&& self.avatars_dir@ == joined_path(self.data_dir@, AVATARS_DIR@)
        &&& self.models_dir@ == joined_path(self.data_dir@, MODELS_DIR@)
        &&& self.exports_dir@ == joined_path(self.data_dir@, EXPORTS_DIR@)
        &&& self.logs_dir@ == joined_path(self.data_dir@, LOGS_DIR@)
    }

    /// The layout under the data directory `data_dir`: the database file
    /// `glee.db` at its root, and beside it the directories `avatars`,
    /// `models`, `exports` and `logs`.
    pub fn new(data_dir: &str) -> (paths: AppPaths)
        ensures
            paths.data_dir@ == data_dir@,
            paths.well_formed(),
    {
        AppPaths {
            data_dir: data_dir.to_owned(),
            database_path: join_path(data_dir, DATABASE_FILE),
            avatars_dir: join_path(data_dir, AVATARS_DIR),
            models_dir: join_path(data_dir, MODELS_DIR),
            exports_dir: join_path(data_dir, EXPORTS_DIR),
            logs_dir: join_path(data_dir, LOGS_DIR),
        }
    }

    /// The path of the model file `filename`: that name under the directory
    /// for models.
    pub fn model_file_path(&self, filename: &str) -> (path: String)
        ensures
            path@ == joined_path(self.models_dir@, filename@),
    {
        join_path(self.models_dir.as_str(), filename)
    }

    /// The path of the avatar file `filename`: that name under the directory
    /// for avatars.
    pub fn avatar_file_path(&self, filename: &str) -> (path: String)
        ensures
            path@ == joined_path(self.avatars_dir@, filename@),
    {
        join_path(self.avatars_dir.as_str(), filename)
    }

    /// The path of the model that is loaded when none is configured: the
    /// file `model.gguf` under the directory for models, which in the layout
    /// is `models` under the data directory.
    pub fn default_model_path(&self) -> (path: String)
        ensures
            path@ == joined_path(self.models_dir@, DEFAULT_MODEL_FILE@),
            self.well_formed() ==> path@ == joined_all(
                self.data_dir@,
                seq![MODELS_DIR@, DEFAULT_MODEL_FILE@],
            ),
    {
        proof {
            let names = seq![MODELS_DIR@, DEFAULT_MODEL_FILE@];
            assert(names.drop_last() =~= seq![MODELS_DIR@]);
            assert(seq![MODELS_DIR@].drop_last() =~= Seq::<Seq<char>>::empty());
            assert(joined_all(self.data_dir@, Seq::<Seq<char>>::empty()) == self.data_dir@);
            assert(joined_all(self.data_dir@, seq![MODELS_DIR@]) == joined_path(
                self.data_dir@,
                MODELS_DIR@,
            ));
        }
        join_path(self.models_dir.as_str(), DEFAULT_MODEL_FILE)
    }

    /// The directory for the binary of the inference server: `bin` under
    /// the data directory.
    pub fn bin_dir(&self) -> (path: String)
        ensures
            path@ == joined_path(self.data_dir@, BIN_DIR@),
    {
        join_path(self.data_dir.as_str(), BIN_DIR)
    }
}

} // verus!
