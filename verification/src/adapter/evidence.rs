//! Received billing evidence outlives the call that it belongs to, including cancellation.
use crate::contracts::task::{Usage, UsageModel};
use crate::model::Duplicate;
use vstd::prelude::*;

verus! {

/// The evidence record of one call. A record is one of its kind and has no copies: what was
/// received is merged into it, and `snapshot` tells what it holds at the moment. Adapters record
/// known usage before they read dependent output or wait for event consumers.
#[derive(Debug)]
pub struct ModelEvidence {
    usage: Option<Usage>,
    request_id: Option<String>,
}

/// What a `ModelEvidence` holds.
#[verifier::ext_equal]
pub ghost struct ModelEvidenceModel {
    pub usage: Option<UsageModel>,
    pub request_id: Option<Seq<char>>,
}

impl ModelEvidenceModel {
    /// The evidence after more was received: what is missing does not erase what is there.
    pub open spec fn with(
        self,
        usage: Option<UsageModel>,
        request_id: Option<Seq<char>>,
    ) -> ModelEvidenceModel {
        ModelEvidenceModel {
            usage: if usage is Some {
                usage
            } else {
                self.usage
            },
            request_id: if request_id is Some {
                request_id
            } else {
                self.request_id
            },
        }
    }
}

impl DeepView for ModelEvidence {
    type V = ModelEvidenceModel;

    closed spec fn deep_view(&self) -> ModelEvidenceModel {
        ModelEvidenceModel {
            usage: self.usage.deep_view(),
            request_id: self.request_id.deep_view(),
        }
    }
}

/// What was received of a call so far.
#[derive(Debug)]
pub struct ReceivedEvidence {
    pub usage: Option<Usage>,
    pub request_id: Option<String>,
}

/// What a `ReceivedEvidence` holds.
#[verifier::ext_equal]
pub ghost struct ReceivedEvidenceModel {
    pub usage: Option<UsageModel>,
    pub request_id: Option<Seq<char>>,
}

impl DeepView for ReceivedEvidence {
    type V = ReceivedEvidenceModel;

    open spec fn deep_view(&self) -> ReceivedEvidenceModel {
        ReceivedEvidenceModel {
            usage: self.usage.deep_view(),
            request_id: self.request_id.deep_view(),
        }
    }
}

impl Duplicate for ReceivedEvidence {
    fn duplicate(&self) -> (r: Self) {
        ReceivedEvidence {
            usage: self.usage.duplicate(),
            request_id: self.request_id.duplicate(),
        }
    }
}

impl Clone for ReceivedEvidence {
    fn clone(&self) -> (r: Self)
        ensures
            r.deep_view() == self.deep_view(),
    {
        self.duplicate()
    }
}

impl Default for ReceivedEvidence {
    fn default() -> (r: Self)
        ensures
            r.deep_view() == (ReceivedEvidenceModel { usage: None, request_id: None }),
    {
        ReceivedEvidence { usage: None, request_id: None }
    }
}

impl Default for ModelEvidence {
    /// No evidence yet.
    fn default() -> (r: Self)
        ensures
            r.deep_view() == (ModelEvidenceModel { usage: None, request_id: None }),
    {
        ModelEvidence { usage: None, request_id: None }
    }
}

impl ModelEvidence {
    /// Missing fields do not erase previously received evidence.
    pub fn record(&mut self, usage: Option<Usage>, request_id: Option<String>)
        ensures
            final(self).deep_view() == old(self).deep_view().with(
                usage.deep_view(),
                request_id.deep_view(),
            ),
    {
        if usage.is_some() {
            self.usage = usage;
        }
        if request_id.is_some() {
            self.request_id = request_id;
        }
    }

    /// What was received so far.
    pub fn snapshot(&self) -> (r: ReceivedEvidence)
        ensures
            r.deep_view().usage == self.deep_view().usage,
            r.deep_view().request_id == self.deep_view().request_id,
    {
        ReceivedEvidence {
            usage: self.usage.duplicate(),
            request_id: self.request_id.duplicate(),
        }
    }
}

/// What was received once is kept: a later record that lacks a field leaves it as it was.
pub proof fn lemma_evidence_kept(
    earlier: ModelEvidenceModel,
    usage: Option<UsageModel>,
    request_id: Option<Seq<char>>,
)
    ensures
        earlier.usage is Some ==> earlier.with(usage, request_id).usage is Some,
        earlier.request_id is Some ==> earlier.with(usage, request_id).request_id is Some,
        usage is None ==> earlier.with(usage, request_id).usage == earlier.usage,
        request_id is None ==> earlier.with(usage, request_id).request_id == earlier.request_id,
{
}

/// What comes later replaces what was known before, each of the two for itself.
pub proof fn lemma_later_evidence_replaces(
    earlier: ModelEvidenceModel,
    usage: Option<UsageModel>,
    request_id: Option<Seq<char>>,
)
    ensures
        usage is Some ==> earlier.with(usage, request_id).usage == usage,
        request_id is Some ==> earlier.with(usage, request_id).request_id == request_id,
        usage is None ==> earlier.with(usage, request_id).usage == earlier.usage,
        request_id is None ==> earlier.with(usage, request_id).request_id == earlier.request_id,
{
}

} // verus!
