use geoforge::pipeline::{
    model_next_step, osgb_next_step, tileset_next_step, ModelStep, OsgbStep, StepReport, TilesetStep,
};
use geoforge::texture::normalize_mode;

fn osgb_run(rebuild: bool) -> Vec<OsgbStep> {
    let mut steps = vec![OsgbStep::CheckTexture];
    let mut s = OsgbStep::CheckTexture;
    while s != OsgbStep::Done {
        s = osgb_next_step(s, StepReport::Done, rebuild, false).unwrap();
        steps.push(s);
    }
    steps
}

#[test]
fn osgb_stages_run_in_order() {
    assert_eq!(
        osgb_run(false),
        vec![OsgbStep::CheckTexture, OsgbStep::ValidatePaths, OsgbStep::PrepareTemp, OsgbStep::Scan, OsgbStep::ResolveGeo, OsgbStep::Convert, OsgbStep::Texture, OsgbStep::Stage, OsgbStep::ValidateOutput, OsgbStep::Commit, OsgbStep::Done]
    );
    assert_eq!(
        osgb_run(true),
        vec![OsgbStep::CheckTexture, OsgbStep::ValidatePaths, OsgbStep::PrepareTemp, OsgbStep::Scan, OsgbStep::ResolveGeo, OsgbStep::Convert, OsgbStep::Rebuild, OsgbStep::Texture, OsgbStep::Stage, OsgbStep::ValidateOutput, OsgbStep::Commit, OsgbStep::Done]
    );
}

#[test]
fn osgb_failure_and_cancel_stop_the_run() {
    assert_eq!(
        osgb_next_step(OsgbStep::Scan, StepReport::Failed("invalid OSGB".to_string()), false, false).unwrap_err(),
        "invalid OSGB"
    );
    for s in [OsgbStep::Scan, OsgbStep::Convert, OsgbStep::Rebuild, OsgbStep::Texture, OsgbStep::ValidateOutput] {
        assert_eq!(osgb_next_step(s, StepReport::Done, true, true).unwrap_err(), "cancelled");
    }
    assert_eq!(osgb_next_step(OsgbStep::Stage, StepReport::Done, true, true).unwrap(), OsgbStep::ValidateOutput);
    assert_eq!(osgb_next_step(OsgbStep::Commit, StepReport::Done, true, true).unwrap(), OsgbStep::Done);
    assert!(osgb_next_step(OsgbStep::ValidateOutput, StepReport::Failed("no tileset".to_string()), false, false).is_err());
}

#[test]
fn tileset_stages_run_in_order_and_check_cancel() {
    let mut s = TilesetStep::CheckOptions;
    let mut steps = vec![s];
    while s != TilesetStep::Done {
        s = tileset_next_step(s, StepReport::Done, true, false).unwrap();
        steps.push(s);
    }
    assert_eq!(steps, vec![TilesetStep::CheckOptions, TilesetStep::ValidatePaths, TilesetStep::ResolveTileset, TilesetStep::PrepareTemp, TilesetStep::Produce, TilesetStep::Texture, TilesetStep::ValidateOutput, TilesetStep::Commit, TilesetStep::Done]);
    assert_eq!(tileset_next_step(TilesetStep::Texture, StepReport::Done, true, true).unwrap_err(), "cancelled");
    assert_eq!(tileset_next_step(TilesetStep::Texture, StepReport::Done, false, true).unwrap(), TilesetStep::ValidateOutput);
    assert_eq!(tileset_next_step(TilesetStep::PrepareTemp, StepReport::Done, false, true).unwrap(), TilesetStep::Produce);
}

#[test]
fn model_stages_run_in_order_and_check_cancel() {
    let mut s = ModelStep::CheckOptions;
    let mut steps = vec![s];
    while s != ModelStep::Done {
        s = model_next_step(s, StepReport::Done, false).unwrap();
        steps.push(s);
    }
    assert_eq!(
        steps,
        vec![ModelStep::CheckOptions, ModelStep::CheckInput, ModelStep::ValidatePaths, ModelStep::Inspect, ModelStep::PrepareTemp, ModelStep::WriteConfig, ModelStep::Convert, ModelStep::ValidateOutput, ModelStep::Commit, ModelStep::Done]
    );
    assert_eq!(model_next_step(ModelStep::Convert, StepReport::Done, true).unwrap_err(), "cancelled");
    assert_eq!(model_next_step(ModelStep::ValidateOutput, StepReport::Done, true).unwrap(), ModelStep::Commit);
}

#[test]
fn ascii_modes_normalize_once_and_for_all() {
    for m in ["KTX2", " Keep ", "UASTC", "Custom ", "", "ktx2-ETC1S"] {
        let once = normalize_mode(Some(m));
        assert_eq!(normalize_mode(Some(&once)), once);
    }
    assert_eq!(normalize_mode(Some("KTX2")), "ktx2-etc1s");
}
