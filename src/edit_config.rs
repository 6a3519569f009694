use vstd::prelude::*;

use crate::error::EditError;
use crate::mdcv_metadata::{MasteringDisplayPrimaries, MdcvPrimariesPreset};

verus! {

/// What to change in the stream: at least one of the two sections must be present.
#[derive(Debug, Clone, Copy)]
pub struct EditConfig {
    pub mdcv: Option<EditMdcvMetadata>,
    pub cll: Option<EditCllMetadata>,
}

/// Overrides for mastering display colour volume metadata; `None` leaves a field untouched.
#[derive(Debug, Clone, Copy)]
pub struct EditMdcvMetadata {
    /// Existing preset display primaries (BT.709, Display-P3 or BT.2020)
    pub preset: Option<MdcvPrimariesPreset>,
    /// Explicit primaries; they win over `preset`
    pub primaries: Option<MasteringDisplayPrimaries>,
    /// In units of 0.0001 nits (1000 nits = 10000000)
    pub max_display_mastering_luminance: Option<u32>,
    /// In units of 0.0001 nits (0.0001 nits = 1)
    pub min_display_mastering_luminance: Option<u32>,
}

/// Overrides for content light level metadata, in nits; `None` leaves a field untouched.
#[derive(Debug, Clone, Copy, PartialEq, Eq, Structural)]
pub struct EditCllMetadata {
    pub max_content_light_level: Option<u16>,
    pub max_average_light_level: Option<u16>,
}

impl EditConfig {
    /// Checks that the configuration edits something.
    pub fn setup(&mut self) -> (r: Result<(), EditError>)
        ensures
            *final(self) == *old(self),
            r == Err::<(), EditError>(EditError::ConfigInvalid) <==> (old(self).mdcv is None
                && old(self).cll is None),
            r is Ok <==> !(old(self).mdcv is None && old(self).cll is None),
    {
        if self.mdcv.is_none() && self.cll.is_none() {
            return Err(EditError::ConfigInvalid);
        }
        Ok(())
    }
}

} // verus!
