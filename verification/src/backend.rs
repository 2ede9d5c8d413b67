//! Backend capability descriptions and the preferred/fallback pairing.
use vstd::prelude::*;

verus! {

#[derive(Debug, Clone, Copy, PartialEq, Eq, Structural)]
pub struct BackendCapabilities {
    pub supports_candidate_generation: bool,
    pub supports_vector_scoring: bool,
    pub supports_hydration: bool,
    pub supports_mutations: bool,
}

impl BackendCapabilities {
    pub fn cpu_reference() -> (r: Self)
        ensures
            r == (BackendCapabilities {
                supports_candidate_generation: true,
                supports_vector_scoring: true,
                supports_hydration: true,
                supports_mutations: true,
            }),
    {
        Self {
            supports_candidate_generation: true,
            supports_vector_scoring: true,
            supports_hydration: true,
            supports_mutations: true,
        }
    }
}

/// The parts of the work a backend may or may not offer.
#[derive(Debug, Clone, Copy, PartialEq, Eq, Structural)]
pub enum BackendStage {
    CandidateGeneration,
    VectorScoring,
    Hydration,
    Mutations,
}

impl BackendCapabilities {
    /// Whether these capabilities cover `stage`.
    pub open spec fn covers(self, stage: BackendStage) -> bool {
        match stage {
            BackendStage::CandidateGeneration => self.supports_candidate_generation,
            BackendStage::VectorScoring => self.supports_vector_scoring,
            BackendStage::Hydration => self.supports_hydration,
            BackendStage::Mutations => self.supports_mutations,
        }
    }

    pub fn supports(&self, stage: BackendStage) -> (r: bool)
        ensures
            r == self.covers(stage),
    {
        match stage {
            BackendStage::CandidateGeneration => self.supports_candidate_generation,
            BackendStage::VectorScoring => self.supports_vector_scoring,
            BackendStage::Hydration => self.supports_hydration,
            BackendStage::Mutations => self.supports_mutations,
        }
    }

    /// What a pair of backends offers together: each stage that either offers.
    pub fn combined(&self, other: &BackendCapabilities) -> (r: BackendCapabilities)
        ensures
            forall|stage: BackendStage| #[trigger] r.covers(stage) == (self.covers(stage) || other.covers(
                stage,
            )),
    {
        BackendCapabilities {
            supports_candidate_generation: self.supports_candidate_generation
                || other.supports_candidate_generation,
            supports_vector_scoring: self.supports_vector_scoring || other.supports_vector_scoring,
            supports_hydration: self.supports_hydration || other.supports_hydration,
            supports_mutations: self.supports_mutations || other.supports_mutations,
        }
    }
}

/// Which backend of a preferred/fallback pair serves a stage.
#[derive(Debug, Clone, Copy, PartialEq, Eq, Structural)]
pub enum Route {
    Preferred,
    Fallback,
}

/// A stage goes to the preferred backend when it offers it, else to the
/// fallback.
pub fn route_stage(preferred: &BackendCapabilities, stage: BackendStage) -> (r: Route)
    ensures
        r == (if preferred.covers(stage) {
            Route::Preferred
        } else {
            Route::Fallback
        }),
{
    if preferred.supports(stage) {
        Route::Preferred
    } else {
        Route::Fallback
    }
}

/// Each stage is offered exactly when its own flag is set, whatever the other
/// flags say; so a stage goes to the preferred backend exactly when that
/// backend's flag for the stage is set, and a pair offers a stage exactly when
/// either backend's flag for it is set.
pub proof fn lemma_each_stage_has_its_own_flag(caps: BackendCapabilities, other: BackendCapabilities)
    ensures
        caps.covers(BackendStage::CandidateGeneration) == caps.supports_candidate_generation,
        caps.covers(BackendStage::VectorScoring) == caps.supports_vector_scoring,
        caps.covers(BackendStage::Hydration) == caps.supports_hydration,
        caps.covers(BackendStage::Mutations) == caps.supports_mutations,
        forall|stage: BackendStage|
            (#[trigger] caps.covers(stage) || other.covers(stage)) == match stage {
                BackendStage::CandidateGeneration => caps.supports_candidate_generation
                    || other.supports_candidate_generation,
                BackendStage::VectorScoring => caps.supports_vector_scoring
                    || other.supports_vector_scoring,
                BackendStage::Hydration => caps.supports_hydration || other.supports_hydration,
                BackendStage::Mutations => caps.supports_mutations || other.supports_mutations,
            },
{
}

/// A preferred backend paired with a fallback that serves each stage the
/// preferred one does not support.
#[derive(Debug)]
pub struct FallbackBackend<P, F> {
    preferred: P,
    fallback: F,
}

impl<P, F> FallbackBackend<P, F> {
    pub closed spec fn preferred_backend(&self) -> P {
        self.preferred
    }

    pub closed spec fn fallback_backend(&self) -> F {
        self.fallback
    }

    pub fn new(preferred: P, fallback: F) -> (r: Self)
        ensures
            r.preferred_backend() == preferred,
            r.fallback_backend() == fallback,
    {
        Self { preferred, fallback }
    }

    pub fn preferred(&self) -> (r: &P)
        ensures
            *r == self.preferred_backend(),
    {
        &self.preferred
    }

    pub fn fallback(&self) -> (r: &F)
        ensures
            *r == self.fallback_backend(),
    {
        &self.fallback
    }

    pub fn preferred_mut(&mut self) -> (r: &mut P)
        ensures
            *r == old(self).preferred_backend(),
            final(self).preferred_backend() == *final(r),
            final(self).fallback_backend() == old(self).fallback_backend(),
    {
        &mut self.preferred
    }

    pub fn fallback_mut(&mut self) -> (r: &mut F)
        ensures
            *r == old(self).fallback_backend(),
            final(self).fallback_backend() == *final(r),
            final(self).preferred_backend() == old(self).preferred_backend(),
    {
        &mut self.fallback
    }
}

} // verus!
