use cuda_cpp::float_bits::F32Bits;
use cuda_cpp::lr_policy::{
    RangerUpdateParams, SfnnLayerLrMultipliers, SfnnUpdateLayer, SfnnUpdateParamKind,
};

fn bits(x: f32) -> F32Bits {
    F32Bits(x.to_bits())
}

fn value(x: F32Bits) -> f32 {
    f32::from_bits(x.0)
}

#[test]
fn ft_guard_validation() {
    let p = SfnnLayerLrMultipliers::default();
    assert_eq!(value(p.ft_saturation_penalty), 0.0);
    assert!(p.validate().is_ok());
    for x in [-1.0, f32::NAN, f32::INFINITY] {
        assert!(SfnnLayerLrMultipliers { ft_saturation_penalty: bits(x), ..p }.validate().is_err());
    }
    for x in [0.0, -0.1, 1.1, f32::NAN] {
        assert!(SfnnLayerLrMultipliers { ft_saturation_rate: bits(x), ..p }.validate().is_err());
    }
    assert!(SfnnLayerLrMultipliers { ft_saturation_patience: 0, ..p }.validate().is_err());
}

#[test]
fn norm_loss_scope() {
    let policy = SfnnLayerLrMultipliers { norm_loss_strength: bits(1e-4), ..Default::default() };
    for layer in [SfnnUpdateLayer::L0, SfnnUpdateLayer::L1, SfnnUpdateLayer::L2, SfnnUpdateLayer::L3] {
        for kind in [SfnnUpdateParamKind::Weight, SfnnUpdateParamKind::Bias] {
            let p = policy.clip_params(RangerUpdateParams::default(), layer, kind);
            let excluded = layer == SfnnUpdateLayer::L0 && kind == SfnnUpdateParamKind::Weight;
            assert_eq!(value(p.norm_loss_strength), if excluded { 0.0 } else { 1e-4 });
            assert_eq!(p.norm_loss_before, layer == SfnnUpdateLayer::L3 && kind == SfnnUpdateParamKind::Bias);
        }
    }
    for strength in [-1.0, f32::NAN, f32::INFINITY] {
        assert!(SfnnLayerLrMultipliers { norm_loss_strength: bits(strength), ..Default::default() }
            .validate()
            .is_err());
    }
}
