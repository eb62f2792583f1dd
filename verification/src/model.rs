//! A model: a crate below `models/` that builds into a library, from which
//! the shape of the model is loaded.

use vstd::prelude::*;
use vstd::string::StringExecFns;

verus! {

/// A model, known by its name
pub struct Model {
    name: String,
}

impl View for Model {
    type V = Seq<char>;

    /// The name of the model
    closed spec fn view(&self) -> Seq<char> {
        self.name@
    }
}

/// The directory of the model with the given name: `models/` and the name
pub open spec fn model_path(name: Seq<char>) -> Seq<char> {
    "models/"@ + name
}

/// The directory of the sources of the model with the given name: its
/// directory and `/src`
pub open spec fn model_src_path(name: Seq<char>) -> Seq<char> {
    model_path(name) + "/src"@
}

/// The manifest of the model with the given name: its directory and
/// `/Cargo.toml`
pub open spec fn model_manifest_path(name: Seq<char>) -> Seq<char> {
    model_path(name) + "/Cargo.toml"@
}

/// The place of the library that the model with the given name builds into:
/// its directory, `/target/debug/`, the prefix that the platform puts before
/// the name of a library, the name, and the suffix that the platform puts
/// behind it
pub open spec fn model_library_path(name: Seq<char>, prefix: Seq<char>, suffix: Seq<char>) -> Seq<
    char,
> {
    model_path(name) + "/target/debug/"@ + prefix + name + suffix
}

impl Model {
    /// The model with the given name
    pub fn new(name: String) -> (model: Self)
        ensures
            model@ == name@,
    {
        Self { name }
    }

    /// The name of the model
    pub fn name(&self) -> (name: &str)
        ensures
            name@ == self@,
    {
        self.name.as_str()
    }

    /// The directory of the model
    pub fn path(&self) -> (path: String)
        ensures
            path@ == model_path(self@),
    {
        String::from_str("models/").concat(self.name.as_str())
    }

    /// The directory of the sources of the model
    pub fn src_path(&self) -> (path: String)
        ensures
            path@ == model_src_path(self@),
    {
        self.path().concat("/src")
    }

    /// The manifest of the model, which its build is run on
    pub fn manifest_path(&self) -> (path: String)
        ensures
            path@ == model_manifest_path(self@),
    {
        self.path().concat("/Cargo.toml")
    }

    /// The place of the library that the build of the model leaves behind,
    /// where the platform names the library of a crate `name` by `prefix`,
    /// `name` and `suffix`: `lib` and `.so` on Unix, `lib` and `.dylib` on
    /// macOS, nothing and `.dll` on Windows
    pub fn library_path(&self, prefix: &str, suffix: &str) -> (path: String)
        ensures
            path@ == model_library_path(self@, prefix@, suffix@),
    {
        self.path().concat("/target/debug/").concat(prefix).concat(self.name.as_str()).concat(
            suffix,
        )
    }
}

} // verus!
