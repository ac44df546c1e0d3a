use std::collections::HashMap;
use vstd::prelude::*;

verus! {

/// Version of the saved data layout.
#[derive(Debug, Clone, Copy, PartialEq, Eq)]
pub struct Version {
    pub major: u32,
    pub minor: u32,
    pub patch: u32,
}

impl Version {
    pub fn new(major: u32, minor: u32, patch: u32) -> (v: Self)
        ensures
            v.major == major,
            v.minor == minor,
            v.patch == patch,
    {
        Self { major, minor, patch }
    }
}

impl Default for Version {
    fn default() -> (v: Self)
        ensures
            v.major == 0 && v.minor == 0 && v.patch == 0,
    {
        Self { major: 0, minor: 0, patch: 0 }
    }
}

} // verus!

verus! {

/// A saved image set: where the images are and how a session over them runs.
#[derive(Debug, Clone)]
pub struct ImageSet {
    pub directory: String,
    pub image_duration: u32,
    pub break_duration: u32,
    pub image_limit: u32,
}

impl ImageSet {
    pub fn new(directory: String, image_duration: u32, break_duration: u32, image_limit: u32) -> (s:
        Self)
        ensures
            s.directory == directory,
            s.image_duration == image_duration,
            s.break_duration == break_duration,
            s.image_limit == image_limit,
    {
        Self { directory, image_duration, break_duration, image_limit }
    }
}

impl Default for ImageSet {
    fn default() -> (s: Self)
        ensures
            s.directory@ == Seq::<char>::empty(),
            s.image_duration == 0,
            s.break_duration == 0,
            s.image_limit == 0,
    {
        Self { directory: String::new(), image_duration: 0, break_duration: 0, image_limit: 0 }
    }
}

/// Everything that is persisted between runs.
#[derive(Debug)]
pub struct Config {
    pub version: Version,
    pub sets: HashMap<String, ImageSet>,
}

impl Config {
    pub fn new(version: Version, sets: HashMap<String, ImageSet>) -> (c: Self)
        ensures
            c.version == version,
            c.sets == sets,
    {
        Self { version, sets }
    }

    /// Name of the file that holds the saved data called `base`: the base name
    /// with the `.json` extension appended.
    pub fn file_name(base: &str) -> (name: String)
        ensures
            name@ == base@ + ".json"@,
    {
        let name = String::from_str(base);
        name.concat(".json")
    }
}

} // verus!
