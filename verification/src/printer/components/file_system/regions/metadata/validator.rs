//! Validators: they tell whether the memory addresses of a file known to a reader or a writer are
//! still valid (they aren't anymore after the files are moved in the memory).
use vstd::prelude::*;

use super::FilesMetadatasRegion;

verus! {

/// A token handed to the readers and writers of files, valid until the master that created it
/// invalidates all its instances.
#[derive(Clone, Copy, PartialEq, Eq, Debug, Structural)]
pub struct FileMetadataValidator(u32);

impl View for FileMetadataValidator {
    type V = u32;

    closed spec fn view(&self) -> u32 {
        self.0
    }
}

impl FileMetadataValidator {
    /// Returns `true` if the validator hasn't been invalidated by the master of the provided
    /// `files_metadata_region`.
    pub fn validate(&self, files_metadata_region: &FilesMetadatasRegion) -> (valid: bool)
        ensures
            valid == (self@ >= files_metadata_region.spec_validator_master()@),
    {
        self.0 >= files_metadata_region.get_validator_master_generation()
    }
}

/// The master that creates the validators and can invalidate all of them at once.
pub struct FileMetadataValidatorMaster(u32);

impl View for FileMetadataValidatorMaster {
    type V = u32;

    closed spec fn view(&self) -> u32 {
        self.0
    }
}

impl FileMetadataValidatorMaster {
    /// Returns a master that has never invalidated its validators.
    pub fn new() -> (master: Self)
        ensures
            master@ == 0,
    {
        Self(0)
    }

    /// Returns a validator that is valid until [`Self::invalidate_all_the_instances`] is called.
    pub fn create_validator(&self) -> (validator: FileMetadataValidator)
        ensures
            validator@ == self@,
    {
        FileMetadataValidator(self.0)
    }

    /// Invalidates all the validators created so far.
    pub fn invalidate_all_the_instances(&mut self)
        requires
            old(self)@ < u32::MAX,
        ensures
            final(self)@ == old(self)@ + 1,
    {
        self.0 = self.0 + 1;
    }

    /// The number of times the validators have been invalidated.
    pub fn generation(&self) -> (generation: u32)
        ensures
            generation == self@,
    {
        self.0
    }
}

/// A validator stays valid until its master invalidates all the instances, and from then on it's
/// never valid again, while the validators created afterwards are valid.
pub proof fn lemma_validator_lifecycle(
    master: FileMetadataValidatorMaster,
    validator: FileMetadataValidator,
    invalidated: FileMetadataValidatorMaster,
    new_validator: FileMetadataValidator,
)
    requires
        validator@ == master@,
        invalidated@ == master@ + 1,
        new_validator@ == invalidated@,
    ensures
        validator@ >= master@,
        !(validator@ >= invalidated@),
        new_validator@ >= invalidated@,
{
}

} // verus!
