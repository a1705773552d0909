//! The generation models the tool can ask the worker for.

use vstd::prelude::*;

verus! {

/// A 3D generation model offered to the user.
#[derive(Debug, Clone, Copy, PartialEq, Eq, Structural)]
pub enum Model3D {
    ShapE,
}

/// What a model produces.
#[derive(Debug, Clone, Copy, PartialEq, Eq, Structural)]
pub enum ModelType {
    Scene,
    Object,
}

/// Rough quality tier of a model's output.
#[derive(Debug, Clone, Copy, PartialEq, Eq, PartialOrd, Ord, Structural)]
pub enum Quality {
    Medium,
    High,
    VeryHigh,
}

impl Model3D {
    pub open spec fn spec_name(self) -> Seq<char> {
        match self {
            Model3D::ShapE => "Shap-E"@,
        }
    }

    /// Model name for display.
    pub fn name(&self) -> (r: &'static str)
        ensures
            r@ == self.spec_name(),
    {
        match self {
            Model3D::ShapE => "Shap-E",
        }
    }

    pub open spec fn spec_id(self) -> Seq<char> {
        match self {
            Model3D::ShapE => "shap_e"@,
        }
    }

    /// Model id as the worker's API expects it.
    pub fn id(&self) -> (r: &'static str)
        ensures
            r@ == self.spec_id(),
    {
        match self {
            Model3D::ShapE => "shap_e",
        }
    }

    pub open spec fn spec_description(self) -> Seq<char> {
        match self {
            Model3D::ShapE => "OpenAI's Shap-E - Fast text-to-3D (30-60 sec)"@,
        }
    }

    /// Human-readable description.
    pub fn description(&self) -> (r: &'static str)
        ensures
            r@ == self.spec_description(),
    {
        match self {
            Model3D::ShapE => "OpenAI's Shap-E - Fast text-to-3D (30-60 sec)",
        }
    }

    pub open spec fn spec_icon(self) -> Seq<char> {
        match self {
            Model3D::ShapE => "⚡"@,
        }
    }

    /// Glyph shown next to the model in the UI.
    pub fn icon(&self) -> (r: &'static str)
        ensures
            r@ == self.spec_icon(),
    {
        match self {
            Model3D::ShapE => "⚡",
        }
    }

    pub open spec fn spec_model_type(&self) -> ModelType {
        match self {
            Model3D::ShapE => ModelType::Object,
        }
    }

    /// Whether the model builds whole scenes or single objects.
    #[verifier::when_used_as_spec(spec_model_type)]
    pub fn model_type(&self) -> (r: ModelType)
        ensures
            r == self.spec_model_type(),
    {
        match self {
            Model3D::ShapE => ModelType::Object,
        }
    }

    pub open spec fn spec_estimated_time_secs(&self) -> u32 {
        match self {
            Model3D::ShapE => 45u32,
        }
    }

    /// Rough generation time in seconds.
    #[verifier::when_used_as_spec(spec_estimated_time_secs)]
    pub fn estimated_time_secs(&self) -> (r: u32)
        ensures
            r == self.spec_estimated_time_secs(),
    {
        match self {
            Model3D::ShapE => 45,
        }
    }

    pub open spec fn spec_quality(&self) -> Quality {
        match self {
            Model3D::ShapE => Quality::High,
        }
    }

    /// Quality tier of the model's output.
    #[verifier::when_used_as_spec(spec_quality)]
    pub fn quality(&self) -> (r: Quality)
        ensures
            r == self.spec_quality(),
    {
        match self {
            Model3D::ShapE => Quality::High,
        }
    }

    /// Every model the tool offers.
    pub fn all() -> (r: [Model3D; 1])
        ensures
            r@.len() == 1,
            r@[0] == Model3D::ShapE,
    {
        [Model3D::ShapE]
    }
}

impl Default for Model3D {
    fn default() -> (r: Self)
        ensures
            r == Model3D::ShapE,
    {
        Model3D::ShapE
    }
}

/// Which text-to-multiview model the placeholder pipeline would use.
#[derive(Debug, Clone, Copy, PartialEq, Eq, Structural)]
pub enum MultiviewModel {
    Placeholder,
    Zero123Plus,
    MVDream,
    ImageDream,
    StableDiffusion,
}

/// Settings of the text-to-multiview stage; the guidance scale is carried
/// in tenths.
#[derive(Debug, Clone, Copy, PartialEq, Eq, Structural)]
pub struct TextToMultiviewConfig {
    pub model_type: MultiviewModel,
    pub num_views: usize,
    pub resolution: u32,
    pub guidance_scale_tenths: u32,
    pub num_inference_steps: usize,
}

impl Default for TextToMultiviewConfig {
    fn default() -> (r: Self)
        ensures
            r == (TextToMultiviewConfig {
                model_type: MultiviewModel::Placeholder,
                num_views: 4usize,
                resolution: 512u32,
                guidance_scale_tenths: 75u32,
                num_inference_steps: 50usize,
            }),
    {
        TextToMultiviewConfig {
            model_type: MultiviewModel::Placeholder,
            num_views: 4,
            resolution: 512,
            guidance_scale_tenths: 75,
            num_inference_steps: 50,
        }
    }
}

} // verus!
