//! The steps of configuring a [`Cargo`] build: the manifest, then the target,
//! then the build type.
use vstd::prelude::*;
use crate::cargo::Cargo;
use crate::target::{Build, Target};

verus! {

/// A build while its manifest is chosen.
#[derive(Debug)]
pub struct Manifest(());

/// A build while its target is chosen.
#[derive(Debug, Clone)]
pub struct BuildTarget {
    manifest: String,
}

/// A build while its build type is chosen.
#[derive(Debug, Clone)]
pub struct BuildType {
    manifest: String,
    target: Target,
}

impl Manifest {
    pub(crate) fn new() -> (r: Self) {
        Manifest(())
    }

    /// Chooses the path to the crate's `Cargo.toml`.
    pub fn manifest(self, manifest: &str) -> (r: BuildTarget)
        ensures
            r.spec_manifest() == manifest@,
    {
        BuildTarget { manifest: String::from_str(manifest) }
    }
}

impl BuildTarget {
    pub closed spec fn spec_manifest(&self) -> Seq<char> {
        self.manifest@
    }

    /// Chooses the target to build.
    pub fn build_target(self, target: Target) -> (r: BuildType)
        ensures
            r.spec_manifest() == self.spec_manifest(),
            r.spec_target() == target,
    {
        BuildType { manifest: self.manifest, target }
    }
}

impl BuildType {
    pub closed spec fn spec_manifest(&self) -> Seq<char> {
        self.manifest@
    }

    pub closed spec fn spec_target(&self) -> Target {
        self.target
    }

    /// Chooses the build type; the build starts without features.
    pub fn build_type(self, build: Build) -> (r: Cargo)
        ensures
            r.spec_manifest() == self.spec_manifest(),
            r.spec_target() == self.spec_target(),
            r.spec_build() == build,
            r.spec_features().len() == 0,
    {
        Cargo::assemble(self.manifest, self.target, build)
    }

    /// Makes a debug build.
    pub fn debug_build(self) -> (r: Cargo)
        ensures
            r.spec_manifest() == self.spec_manifest(),
            r.spec_target() == self.spec_target(),
            r.spec_build() == Build::Debug,
            r.spec_features().len() == 0,
    {
        self.build_type(Build::Debug)
    }

    /// Makes a release build.
    pub fn release_build(self) -> (r: Cargo)
        ensures
            r.spec_manifest() == self.spec_manifest(),
            r.spec_target() == self.spec_target(),
            r.spec_build() == Build::Release,
            r.spec_features().len() == 0,
    {
        self.build_type(Build::Release)
    }
}

} // verus!
