use cuda_cpp::error::CudaCppError;
use cuda_cpp::float_bits::F32Bits;
use cuda_cpp::ft_saturation_guard::{apply, GuardAction, GuardConfig};
use cuda_cpp::lr_policy::SfnnLayerLrMultipliers;

fn bits(x: f32) -> F32Bits {
    F32Bits(x.to_bits())
}

#[test]
fn guard_history_follows_its_configuration() {
    let off = SfnnLayerLrMultipliers::default();
    assert!(matches!(apply(&off, None, 4), Ok(GuardAction::Disable)));
    let on = SfnnLayerLrMultipliers { ft_saturation_penalty: bits(0.01), ..off };
    let config = GuardConfig { penalty: bits(0.01), rate: bits(0.2), patience: 1 };
    match apply(&on, None, 4) {
        Ok(GuardAction::Rebuild { history }) => {
            assert_eq!(history.config, config);
            assert_eq!(history.counts_len, 5);
            assert_eq!(history.streaks, vec![0; 4]);
        }
        other => panic!("{other:?}"),
    }
    assert!(matches!(apply(&on, Some(config), 4), Ok(GuardAction::Continue { config: c }) if c == config));
    let other = GuardConfig { patience: 2, ..config };
    assert!(matches!(apply(&on, Some(other), 4), Ok(GuardAction::Rebuild { history }) if history.config == config));
    // Frozen FT skips the penalty even with an invalid rate.
    let frozen = SfnnLayerLrMultipliers { l0: bits(-0.0), ft_saturation_rate: bits(2.0), ..on };
    assert!(matches!(apply(&frozen, Some(config), 4), Ok(GuardAction::Disable)));
    let bad = SfnnLayerLrMultipliers { ft_saturation_rate: bits(2.0), ..on };
    assert!(matches!(apply(&bad, Some(config), 4), Err(CudaCppError::FtSaturationRateInvalid)));
    let nan = SfnnLayerLrMultipliers { ft_saturation_penalty: bits(f32::NAN), ..on };
    assert!(matches!(apply(&nan, None, 4), Err(CudaCppError::FtSaturationPenaltyInvalid)));
    match apply(&on, None, 1024) {
        Ok(GuardAction::Rebuild { history }) => {
            assert_eq!(history.counts_len, 1025);
            assert_eq!(history.streaks.len(), 1024);
        }
        other => panic!("{other:?}"),
    }
}
