use pandora_toolchain::stage::{JobType, Preset, Stage};

const ALL: [Stage; 10] = [
    Stage::Queued,
    Stage::Downloading,
    Stage::Downloaded,
    Stage::Encoding,
    Stage::Encoded,
    Stage::Uploading,
    Stage::Uploaded,
    Stage::Failed,
    Stage::Declined,
    Stage::Cancelled,
];

#[test]
fn stages_are_stored_by_their_ordinals() {
    for (i, stage) in ALL.iter().enumerate() {
        assert_eq!(stage.ordinal(), i as i16);
        assert_eq!(Stage::decode(i as i16), *stage);
    }
    assert_eq!(Stage::decode(10), Stage::Failed);
    assert_eq!(Stage::decode(-1), Stage::Failed);
}

#[test]
fn the_main_chain_runs_from_queued_to_uploaded() {
    let mut stage = Stage::Queued;
    let mut seen = vec![stage];
    while let Some(next) = stage.successor() {
        assert!(stage.allows(next));
        assert!(stage.ordinal() < next.ordinal());
        stage = next;
        seen.push(stage);
    }
    assert_eq!(seen, ALL[..7].to_vec());
}

#[test]
fn steps_outside_the_chain_are_refused() {
    for from in ALL {
        for to in ALL {
            let expected = from.successor() == Some(to)
                || (!from.is_terminal() && (to == Stage::Failed || to == Stage::Cancelled))
                || (from == Stage::Queued && to == Stage::Declined);
            assert_eq!(from.allows(to), expected);
            if from.allows(to) {
                assert!(from.ordinal() < to.ordinal());
            }
        }
    }
    assert!(!Stage::Downloading.allows(Stage::Encoding));
    assert!(!Stage::Downloaded.allows(Stage::Downloaded));
    assert!(!Stage::Uploaded.allows(Stage::Failed));
    assert!(!Stage::Downloading.allows(Stage::Declined));
    assert!(Stage::Uploading.allows(Stage::Cancelled));
}

#[test]
fn ends_are_the_four_last_stages() {
    for stage in ALL {
        assert_eq!(stage.is_terminal(), stage.ordinal() >= 6);
    }
}

#[test]
fn presets_are_stored_by_kind_and_intro() {
    assert_eq!(Preset::PseudoLossless(None).encode_preset(), (0, None));
    assert_eq!(Preset::Standard(Some(1)).encode_preset(), (1, Some(1)));
    assert_eq!(Preset::Gpu(Some(-3)).encode_preset(), (2, Some(-3)));
    for preset in [Preset::PseudoLossless(Some(4)), Preset::Standard(None), Preset::Gpu(Some(0))] {
        let (kind, concat) = preset.encode_preset();
        assert_eq!(Preset::decode_preset(kind, concat), preset);
        assert_eq!(preset.concat(), concat);
    }
    assert_eq!(Preset::decode_preset(3, None), Preset::Standard(Some(0)));
    assert_eq!(Preset::decode_preset(-1, Some(9)), Preset::Standard(Some(0)));
}

#[test]
fn every_stored_kind_of_job_is_an_encode() {
    assert_eq!(JobType::Encode.code(), 1);
    assert_eq!(JobType::decode_job_type(1), JobType::Encode);
    assert_eq!(JobType::decode_job_type(0), JobType::Encode);
}
