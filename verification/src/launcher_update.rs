//! The launcher's own releases, as the server lists them.
use crate::settings::{Build, Setting};
use crate::text::{digest_text, is_digest, letters, spells};
use vstd::prelude::*;

verus! {

pub struct LauncherArtifact {
    pub platform: String,
    pub size: u64,
    pub sha256: String,
}

pub struct LauncherManifest {
    pub schema: u32,
    pub version: String,
    pub target_build: String,
    pub target_exe_sha256: String,
    pub target_pak_sha256: String,
    pub launchers: Vec<LauncherArtifact>,
}

/// Why a launcher manifest is refused.
#[derive(Clone, Copy, Debug, PartialEq, Eq, Structural)]
pub enum ReleaseError {
    Unsupported,
    NoArtifacts,
    Metadata,
}

impl ReleaseError {
    pub open spec fn text(self) -> Seq<char> {
        match self {
            ReleaseError::Unsupported => "launcher manifest is not for the supported DKO build"@,
            ReleaseError::NoArtifacts => "launcher manifest contains no platform artifacts"@,
            ReleaseError::Metadata => "launcher manifest contains invalid artifact metadata"@,
        }
    }

    /// What the player reads.
    pub fn message(&self) -> (r: String)
        ensures
            r@ == self.text(),
    {
        match self {
            ReleaseError::Unsupported =>
                "launcher manifest is not for the supported DKO build".to_owned(),
            ReleaseError::NoArtifacts =>
                "launcher manifest contains no platform artifacts".to_owned(),
            ReleaseError::Metadata =>
                "launcher manifest contains invalid artifact metadata".to_owned(),
        }
    }
}

impl LauncherArtifact {
    /// The artifact is for a known platform and can be checked once downloaded.
    pub open spec fn is_sound(self) -> bool {
        &&& self.platform@ == "windows-x86_64"@ || self.platform@ == "linux-x86_64"@
        &&& self.size > 0
        &&& is_digest(self.sha256@)
    }
}

impl LauncherManifest {
    pub open spec fn is_supported(self, build: &Build) -> bool {
        &&& self.schema == 1
        &&& self.target_build@ == build.value(Setting::TargetBuild)
        &&& self.target_exe_sha256@ == build.value(Setting::TargetExeSha256)
        &&& self.target_pak_sha256@ == build.value(Setting::TargetPakSha256)
    }

    /// What is first wrong with the manifest.
    pub open spec fn fault(self, build: &Build) -> Option<ReleaseError> {
        if !self.is_supported(build) {
            Some(ReleaseError::Unsupported)
        } else if self.launchers@.len() == 0 {
            Some(ReleaseError::NoArtifacts)
        } else if exists|i: int|
            0 <= i < self.launchers@.len() && !(#[trigger] self.launchers@[i]).is_sound() {
            Some(ReleaseError::Metadata)
        } else {
            None
        }
    }
}

/// Accepts the manifests that this launcher can update from.
pub fn validate_manifest(manifest: &LauncherManifest, build: &Build) -> (r: Result<
    (),
    ReleaseError,
>)
    ensures
        match r {
            Ok(()) => manifest.fault(build) is None,
            Err(error) => manifest.fault(build) == Some(error),
        },
{
    if manifest.schema != 1 || !spells(
        letters(manifest.target_build.as_str()).as_slice(),
        build.get(Setting::TargetBuild),
    ) || !spells(
        letters(manifest.target_exe_sha256.as_str()).as_slice(),
        build.get(Setting::TargetExeSha256),
    ) || !spells(
        letters(manifest.target_pak_sha256.as_str()).as_slice(),
        build.get(Setting::TargetPakSha256),
    ) {
        return Err(ReleaseError::Unsupported);
    }
    if manifest.launchers.len() == 0 {
        return Err(ReleaseError::NoArtifacts);
    }
    let mut i: usize = 0;
    while i < manifest.launchers.len()
        invariant
            i <= manifest.launchers@.len(),
            manifest.is_supported(build),
            manifest.launchers@.len() > 0,
            forall|j: int| 0 <= j < i ==> (#[trigger] manifest.launchers@[j]).is_sound(),
        decreases manifest.launchers@.len() - i,
    {
        let artifact = &manifest.launchers[i];
        let platform = letters(artifact.platform.as_str());
        if !(spells(platform.as_slice(), "windows-x86_64") || spells(
            platform.as_slice(),
            "linux-x86_64",
        )) || artifact.size == 0 || !digest_text(letters(artifact.sha256.as_str()).as_slice()) {
            assert(!manifest.launchers@[i as int].is_sound());
            return Err(ReleaseError::Metadata);
        }
        assert(manifest.launchers@[i as int].is_sound());
        i = i + 1;
    }
    Ok(())
}

} // verus!
