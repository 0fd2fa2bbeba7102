//! Host-owned quality and value preferences for one task.
use crate::binary64::{number, Binary64, ONE, ZERO};
use crate::fault::{answers, failure, EngineError, EngineErrorModel};
use crate::model::Duplicate;
use crate::text::{blank, byte_count, byte_len, is_blank};
use vstd::prelude::*;

verus! {

#[derive(Debug)]
pub struct SelectionPolicy {
    pub version: String,
    pub min_quality: Binary64,
    pub target_quality: Binary64,
    pub above_target_factor: Binary64,
    pub cost_reference: u64,
    pub latency_reference_ms: u64,
    pub min_upgrade_gain: Binary64,
}

/// What a `SelectionPolicy` holds.
#[verifier::ext_equal]
pub ghost struct SelectionPolicyModel {
    pub version: Seq<char>,
    pub min_quality: Binary64,
    pub target_quality: Binary64,
    pub above_target_factor: Binary64,
    pub cost_reference: u64,
    pub latency_reference_ms: u64,
    pub min_upgrade_gain: Binary64,
}

impl DeepView for SelectionPolicy {
    type V = SelectionPolicyModel;

    open spec fn deep_view(&self) -> SelectionPolicyModel {
        SelectionPolicyModel {
            version: self.version.deep_view(),
            min_quality: self.min_quality.deep_view(),
            target_quality: self.target_quality.deep_view(),
            above_target_factor: self.above_target_factor.deep_view(),
            cost_reference: self.cost_reference.deep_view(),
            latency_reference_ms: self.latency_reference_ms.deep_view(),
            min_upgrade_gain: self.min_upgrade_gain.deep_view(),
        }
    }
}

impl Duplicate for SelectionPolicy {
    fn duplicate(&self) -> (r: Self) {
        SelectionPolicy {
            version: self.version.duplicate(),
            min_quality: self.min_quality.duplicate(),
            target_quality: self.target_quality.duplicate(),
            above_target_factor: self.above_target_factor.duplicate(),
            cost_reference: self.cost_reference.duplicate(),
            latency_reference_ms: self.latency_reference_ms.duplicate(),
            min_upgrade_gain: self.min_upgrade_gain.duplicate(),
        }
    }
}

impl Clone for SelectionPolicy {
    fn clone(&self) -> (r: Self)
        ensures
            r.deep_view() == self.deep_view(),
    {
        self.duplicate()
    }
}

impl SelectionPolicyModel {
    /// A version of at most 256 bytes; qualities from zero to one, the target not below the
    /// minimum; a positive gain; references above zero.
    pub open spec fn valid(self) -> bool {
        &&& !blank(self.version)
        &&& byte_len(self.version) <= 256
        &&& self.min_quality.in_unit()
        &&& self.min_quality.at_most(self.target_quality)
        &&& self.target_quality.at_most(number(ONE))
        &&& self.above_target_factor.in_unit()
        &&& number(ZERO).less(self.min_upgrade_gain)
        &&& self.min_upgrade_gain.at_most(number(ONE))
        &&& 0 < self.cost_reference <= i64::MAX
        &&& 1 <= self.latency_reference_ms <= 86_400_000
    }

    pub open spec fn fault(self) -> Option<EngineErrorModel> {
        if self.valid() {
            None
        } else {
            Some(failure("configuration"@, "invalid selection policy"@))
        }
    }
}

impl SelectionPolicy {
    pub fn validate(&self) -> (r: Result<(), EngineError>)
        ensures
            answers(r, self.deep_view().fault()),
    {
        if is_blank(self.version.as_str()) || byte_count(self.version.as_str()) > 256
            || !self.min_quality.is_unit() || !self.min_quality.le(self.target_quality)
            || !self.target_quality.le(number(ONE)) || !self.above_target_factor.is_unit()
            || !number(ZERO).lt(self.min_upgrade_gain) || !self.min_upgrade_gain.le(number(ONE))
            || self.cost_reference == 0 || self.cost_reference > 0x7fff_ffff_ffff_ffff
            || self.latency_reference_ms < 1 || self.latency_reference_ms > 86_400_000 {
            return Err(EngineError::new("configuration", "invalid selection policy"));
        }
        Ok(())
    }
}

/// Preferences are accepted exactly where the version is a short text that is not blank, the least
/// quality is at most the one aimed at and both are from zero to one, a gain is worth an upgrade
/// where it is above zero and at most one, and the references are above zero and within bounds.
pub proof fn lemma_valid_selection(policy: SelectionPolicyModel)
    ensures
        policy.fault() is None <==> {
            &&& !blank(policy.version) && byte_len(policy.version) <= 256
            &&& number(0).at_most(policy.min_quality)
            &&& policy.min_quality.at_most(policy.target_quality)
            &&& policy.target_quality.at_most(number(0x3ff0_0000_0000_0000))
            &&& number(0).at_most(policy.above_target_factor)
            &&& policy.above_target_factor.at_most(number(0x3ff0_0000_0000_0000))
            &&& number(0).less(policy.min_upgrade_gain)
            &&& policy.min_upgrade_gain.at_most(number(0x3ff0_0000_0000_0000))
            &&& 1 <= policy.cost_reference <= 9_223_372_036_854_775_807
            &&& 1 <= policy.latency_reference_ms <= 86_400_000
        },
        policy.fault() is Some ==> policy.fault()->0.kind == "configuration"@,
{
}

} // verus!
