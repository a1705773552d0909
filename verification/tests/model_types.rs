use gj_jobs::model::{Model3D, ModelType, MultiviewModel, Quality, TextToMultiviewConfig};

#[test]
fn test_model_ids() {
    assert_eq!(Model3D::ShapE.id(), "shap_e");
}

#[test]
fn test_model_types() {
    assert_eq!(Model3D::ShapE.model_type(), ModelType::Object);
}

#[test]
fn test_all_models() {
    assert_eq!(Model3D::all().len(), 1);
}

#[test]
fn model_metadata_is_fixed() {
    let m = Model3D::default();
    assert_eq!(m, Model3D::ShapE);
    assert_eq!(m.name(), "Shap-E");
    assert_eq!(m.icon(), "⚡");
    assert_eq!(m.estimated_time_secs(), 45);
    assert_eq!(m.quality(), Quality::High);
    assert_eq!(m.description(), "OpenAI's Shap-E - Fast text-to-3D (30-60 sec)");
}

#[test]
fn multiview_defaults() {
    let c = TextToMultiviewConfig::default();
    assert_eq!(c.model_type, MultiviewModel::Placeholder);
    assert_eq!(c.num_views, 4);
    assert_eq!(c.resolution, 512);
    assert_eq!(c.guidance_scale_tenths, 75);
    assert_eq!(c.num_inference_steps, 50);
}

#[test]
fn quality_tiers_are_ordered() {
    assert!(Quality::Medium < Quality::High);
    assert!(Quality::High < Quality::VeryHigh);
}
