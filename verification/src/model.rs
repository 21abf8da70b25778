use vstd::prelude::*;

verus! {

/// A semantic version: ordered triple plus pre-release and build metadata.
#[derive(Debug, PartialEq, Eq)]
pub struct Version {
    pub major: u64,
    pub minor: u64,
    pub patch: u64,
    pub pre: String,
    pub build: String,
}

/// Mathematical model of a `Version`.
pub struct VersionView {
    pub major: u64,
    pub minor: u64,
    pub patch: u64,
    pub pre: Seq<char>,
    pub build: Seq<char>,
}

impl View for Version {
    type V = VersionView;

    open spec fn view(&self) -> VersionView {
        VersionView {
            major: self.major,
            minor: self.minor,
            patch: self.patch,
            pre: self.pre@,
            build: self.build@,
        }
    }
}

impl DeepView for Version {
    type V = VersionView;

    open spec fn deep_view(&self) -> VersionView {
        self.view()
    }
}

impl Version {
    /// An exact copy of the version.
    pub fn duplicate(&self) -> (r: Version)
        ensures
            r == *self,
    {
        Version {
            major: self.major,
            minor: self.minor,
            patch: self.patch,
            pre: self.pre.clone(),
            build: self.build.clone(),
        }
    }
}

/// One record of the module catalog: an immutable value once constructed.
/// The identifier is a 128-bit value; its canonical textual form is the
/// hyphenated lower-case hexadecimal rendering (see `crate::ident`).
#[derive(Debug, PartialEq, Eq)]
pub struct Module {
    pub uuid: u128,
    pub name: String,
    pub description: String,
    pub version: Version,
    pub url: String,
    pub checksum: String,
}

/// Mathematical model of a `Module`.
pub struct ModuleView {
    pub uuid: u128,
    pub name: Seq<char>,
    pub description: Seq<char>,
    pub version: VersionView,
    pub url: Seq<char>,
    pub checksum: Seq<char>,
}

impl View for Module {
    type V = ModuleView;

    open spec fn view(&self) -> ModuleView {
        ModuleView {
            uuid: self.uuid,
            name: self.name@,
            description: self.description@,
            version: self.version@,
            url: self.url@,
            checksum: self.checksum@,
        }
    }
}

impl DeepView for Module {
    type V = ModuleView;

    open spec fn deep_view(&self) -> ModuleView {
        self.view()
    }
}

impl Module {
    /// An exact copy of the record.
    pub fn duplicate(&self) -> (r: Module)
        ensures
            r == *self,
    {
        Module {
            uuid: self.uuid,
            name: self.name.clone(),
            description: self.description.clone(),
            version: self.version.duplicate(),
            url: self.url.clone(),
            checksum: self.checksum.clone(),
        }
    }
}

} // verus!
